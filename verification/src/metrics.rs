//! A record of one attempted transfer, for reporting.
use vstd::prelude::*;

verus! {

/// Whether a transfer succeeded, and between which paths it ran.
#[derive(Debug, Clone)]
pub struct Payload {
    status: bool,
    source: String,
    destination: String,
}

impl Payload {
    /// Not yet successful, with empty endpoints.
    pub closed spec fn is_fresh(&self) -> bool {
        !self.status && self.source@ == Seq::<char>::empty() && self.destination@ == Seq::<
            char,
        >::empty()
    }

    /// A fresh payload: not successful, with empty endpoints.
    pub fn new() -> (r: Payload)
        ensures
            r.is_fresh(),
    {
        Payload { status: false, source: String::new(), destination: String::new() }
    }
}

} // verus!
