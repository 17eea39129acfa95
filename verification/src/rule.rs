//! Extension point for organization rules judged against a crawled file.
use vstd::prelude::*;

use crate::file_metadata::FileContext;

verus! {

/// An organization rule supplied by a user of the library: how it applies
/// to a crawled file and where that file should go.
pub trait OrganizationRule: Send + Sync {
    fn name(&self) -> &str;

    fn applies_to(&self, context: &FileContext) -> RuleMatch;

    fn destination(&self, context: &FileContext) -> Result<String, RuleError>;

    fn priority(&self) -> u32;

    fn description(&self) -> &str;
}

/// Why an organization rule could not produce a destination.
#[derive(Debug, Clone)]
pub struct RuleError {
    pub message: String,
}

/// How a rule relates to a file.
#[derive(Debug, Clone)]
pub enum RuleMatch {
    No,
    Yes,
    /// Applies only under the named condition.
    Conditional(String),
}

} // verus!
