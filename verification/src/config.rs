//! The configuration data model — rules, their filters and their actions —
//! and the loader that builds it from the text of a TOML document.
//!
//! The TOML text itself is parsed by the `toml` crate into its generic
//! value tree; everything after that — which tables make a well-formed
//! rule, filter or action, and what they mean — is this module's own logic,
//! stated against a mathematical model of that tree (`TomlV`) and verified.
use vstd::prelude::*;

verus! {

/// The mathematical model of a parsed TOML value: what the configuration
/// reader can see of it. Values of kinds it never reads (floats, dates)
/// collapse into `OtherVal`.
pub ghost enum TomlV {
    Str(Seq<char>),
    Int(i64),
    Bool(bool),
    Arr(Seq<TomlV>),
    Tab(Map<Seq<char>, TomlV>),
    OtherVal,
}

#[verifier::external_type_specification]
#[verifier::external_body]
pub struct ExTomlValue(toml::Value);

/// The model of one parsed TOML value.
pub uninterp spec fn toml_view(v: toml::Value) -> TomlV;

/// What parsing a TOML document yields: a function of the text alone.
pub uninterp spec fn toml_of(text: Seq<char>) -> Option<TomlV>;

/// Relies on `toml::from_str::<toml::Value>`: parses the document into the
/// generic value tree, deterministically from the text.
#[verifier::external_body]
fn toml_parse(text: &str) -> (r: Option<toml::Value>)
    ensures
        match r {
            Some(v) => toml_of(text@) == Some(toml_view(v)),
            None => toml_of(text@) is None,
        },
{
    match toml::from_str::<toml::Value>(text) {
        Ok(v) => Some(v),
        Err(_) => None,
    }
}

/// Relies on `toml::Value::as_str`: `Some` exactly on the string variant.
#[verifier::external_body]
fn value_as_str<'a>(v: &'a toml::Value) -> (r: Option<&'a str>)
    ensures
        match r {
            Some(s) => toml_view(*v) == TomlV::Str(s@),
            None => !(toml_view(*v) is Str),
        },
{
    v.as_str()
}

/// Relies on `toml::Value::as_bool`: `Some` exactly on the boolean variant.
#[verifier::external_body]
fn value_as_bool(v: &toml::Value) -> (r: Option<bool>)
    ensures
        match r {
            Some(b) => toml_view(*v) == TomlV::Bool(b),
            None => !(toml_view(*v) is Bool),
        },
{
    v.as_bool()
}

/// Relies on `toml::Value::as_integer`: `Some` exactly on the integer
/// variant.
#[verifier::external_body]
fn value_as_int(v: &toml::Value) -> (r: Option<i64>)
    ensures
        match r {
            Some(i) => toml_view(*v) == TomlV::Int(i),
            None => !(toml_view(*v) is Int),
        },
{
    v.as_integer()
}

/// Relies on `toml::Value::get` with a string index: on a table it looks
/// the key up, on anything else it is `None`.
#[verifier::external_body]
fn value_get<'a>(v: &'a toml::Value, key: &str) -> (r: Option<&'a toml::Value>)
    ensures
        match r {
            Some(x) => toml_view(*v) matches TomlV::Tab(m) && m.dom().contains(key@) && m[key@]
                == toml_view(*x),
            None => !(toml_view(*v) matches TomlV::Tab(m) && m.dom().contains(key@)),
        },
{
    v.get(key)
}

/// Relies on `toml::Value::as_array`: `Some` exactly on the array variant,
/// with the elements in order.
#[verifier::external_body]
fn value_as_array<'a>(v: &'a toml::Value) -> (r: Option<&'a Vec<toml::Value>>)
    ensures
        match r {
            Some(a) => toml_view(*v) matches TomlV::Arr(s) && s.len() == a@.len() && (forall|
                i: int,
            |
                0 <= i < a@.len() ==> s[i] == #[trigger] toml_view(a@[i])),
            None => !(toml_view(*v) is Arr),
        },
{
    v.as_array()
}

/// A parsed configuration: the list of declared rules.
#[derive(Debug, Clone)]
pub struct Config {
    pub rules: Vec<Rule>,
}

/// One rule: where to search, which files match, and what to do with them.
#[derive(Debug, Clone)]
pub struct Rule {
    pub name: String,
    pub locations: Vec<String>,
    /// Whether the crawler descends into subdirectories.
    pub subfolders: bool,
    /// A file matches when any filter in the list matches.
    pub filters: Vec<Filter>,
    /// Applied in order; the first failure stops the list for that file.
    pub actions: Vec<Action>,
}

/// Reserved for archive handling; carries nothing today.
#[derive(Debug, Clone)]
pub struct CompressionFormat {}

/// A side-effecting operation applied to a matched file.
#[derive(Debug, Clone)]
pub enum Action {
    /// Log a message; never fails, touches nothing.
    Echo(String),
    /// Relocate the file into the named directory, keeping its base name.
    Move(String),
    /// Duplicate the file into the named directory, keeping its base name.
    Copy(String),
    /// Remove the file.
    Delete,
    /// Rename the file within its directory to `replacement`; on collision a
    /// timestamped name is derived instead. The `pattern` field is accepted
    /// from configuration and, by decision, not consulted: the replacement
    /// alone names the destination, and no substitution against the original
    /// name takes place.
    Rename { pattern: String, replacement: String },
}

/// A predicate over a file and its metadata snapshot.
#[derive(Debug, Clone)]
pub enum Filter {
    /// Case-insensitive exact match on the path's extension.
    Extension { extension: String },
    /// Case-sensitive substring match on the file's base name.
    NameContains { name_contains: String },
    /// Matches when the file's age in whole days strictly exceeds the bound;
    /// an absent bound never matches.
    Age { days_older_than: Option<u32> },
    /// Both present bounds must hold strictly; an absent bound is satisfied.
    Size { size_gt: Option<u64>, size_lt: Option<u64> },
}

/// Why a configuration text is rejected.
#[derive(Debug, Clone, Copy, PartialEq, Eq, Structural)]
pub enum ConfigError {
    /// The text is not a TOML document.
    Parse,
    /// The document does not have the shape of a configuration.
    Shape,
}

/// Whether a TOML value is a well-formed filter: a table whose first
/// recognized key — `extension`, `name_contains`, `days_older_than`,
/// `size_gt`/`size_lt`, in that order of precedence — carries a value of
/// the right kind and range.
pub open spec fn spec_filter_wf(t: TomlV) -> bool {
    match t {
        TomlV::Tab(m) => if m.dom().contains("extension"@) {
            m["extension"@] is Str
        } else if m.dom().contains("name_contains"@) {
            m["name_contains"@] is Str
        } else if m.dom().contains("days_older_than"@) {
            m["days_older_than"@] matches TomlV::Int(i) && 0 <= i <= u32::MAX
        } else if m.dom().contains("size_gt"@) || m.dom().contains("size_lt"@) {
            (m.dom().contains("size_gt"@) ==> (m["size_gt"@] matches TomlV::Int(g) && g >= 0)) && (
            m.dom().contains("size_lt"@) ==> (m["size_lt"@] matches TomlV::Int(l) && l >= 0))
        } else {
            false
        },
        _ => false,
    }
}

/// Whether `f` is the filter a well-formed filter table denotes.
pub open spec fn spec_filter_rel(f: Filter, t: TomlV) -> bool {
    match t {
        TomlV::Tab(m) => if m.dom().contains("extension"@) {
            f matches Filter::Extension { extension } && m["extension"@] == TomlV::Str(extension@)
        } else if m.dom().contains("name_contains"@) {
            f matches Filter::NameContains { name_contains } && m["name_contains"@] == TomlV::Str(
                name_contains@,
            )
        } else if m.dom().contains("days_older_than"@) {
            f matches Filter::Age { days_older_than } && days_older_than matches Some(d) && m[
                "days_older_than"@
            ] == TomlV::Int(d as i64)
        } else if m.dom().contains("size_gt"@) || m.dom().contains("size_lt"@) {
            f matches Filter::Size { size_gt, size_lt } && (match size_gt {
                Some(g) => m.dom().contains("size_gt"@) && m["size_gt"@] == TomlV::Int(g as i64),
                None => !m.dom().contains("size_gt"@),
            }) && (match size_lt {
                Some(l) => m.dom().contains("size_lt"@) && m["size_lt"@] == TomlV::Int(l as i64),
                None => !m.dom().contains("size_lt"@),
            })
        } else {
            false
        },
        _ => false,
    }
}

/// Whether a TOML value is a well-formed action: the string `"delete"`, or
/// a table whose first recognized key — `echo`, `move`, `copy`, `rename` —
/// carries a string (for `rename`, a table of the `pattern` and
/// `replacement` strings).
pub open spec fn spec_action_wf(t: TomlV) -> bool {
    match t {
        TomlV::Str(s) => s == "delete"@,
        TomlV::Tab(m) => if m.dom().contains("echo"@) {
            m["echo"@] is Str
        } else if m.dom().contains("move"@) {
            m["move"@] is Str
        } else if m.dom().contains("copy"@) {
            m["copy"@] is Str
        } else if m.dom().contains("rename"@) {
            m["rename"@] matches TomlV::Tab(mm) && mm.dom().contains("pattern"@) && mm["pattern"@]
                is Str && mm.dom().contains("replacement"@) && mm["replacement"@] is Str
        } else {
            false
        },
        _ => false,
    }
}

/// Whether `a` is the action a well-formed action value denotes.
pub open spec fn spec_action_rel(a: Action, t: TomlV) -> bool {
    match t {
        TomlV::Str(s) => s == "delete"@ && a is Delete,
        TomlV::Tab(m) => if m.dom().contains("echo"@) {
            a matches Action::Echo(msg) && m["echo"@] == TomlV::Str(msg@)
        } else if m.dom().contains("move"@) {
            a matches Action::Move(d) && m["move"@] == TomlV::Str(d@)
        } else if m.dom().contains("copy"@) {
            a matches Action::Copy(d) && m["copy"@] == TomlV::Str(d@)
        } else if m.dom().contains("rename"@) {
            a matches Action::Rename { pattern, replacement } && m["rename"@] matches TomlV::Tab(
                mm,
            ) && mm.dom().contains("pattern"@) && mm["pattern"@] == TomlV::Str(pattern@)
                && mm.dom().contains("replacement"@) && mm["replacement"@] == TomlV::Str(
                replacement@,
            )
        } else {
            false
        },
        _ => false,
    }
}

/// Whether a TOML value is a well-formed rule table: `name` a string,
/// `locations` an array of strings, `subfolders` a boolean, `filters` an
/// array of well-formed filters, `actions` an array of well-formed
/// actions — all five present.
pub open spec fn spec_rule_wf(t: TomlV) -> bool {
    &&& t matches TomlV::Tab(m)
    &&& m.dom().contains("name"@) && m["name"@] is Str
    &&& m.dom().contains("locations"@) && (m["locations"@] matches TomlV::Arr(ls) && (forall|
        i: int,
    |
        0 <= i < ls.len() ==> (#[trigger] ls[i]) is Str))
    &&& m.dom().contains("subfolders"@) && m["subfolders"@] is Bool
    &&& m.dom().contains("filters"@) && (m["filters"@] matches TomlV::Arr(fl) && (forall|i: int|
        0 <= i < fl.len() ==> spec_filter_wf(#[trigger] fl[i])))
    &&& m.dom().contains("actions"@) && (m["actions"@] matches TomlV::Arr(al) && (forall|i: int|
        0 <= i < al.len() ==> spec_action_wf(#[trigger] al[i])))
}

/// Whether `r` is the rule a well-formed rule table denotes.
pub open spec fn spec_rule_rel(r: Rule, t: TomlV) -> bool {
    &&& t matches TomlV::Tab(m)
    &&& m["name"@] == TomlV::Str(r.name@)
    &&& (m["locations"@] matches TomlV::Arr(ls) && r.locations@.len() == ls.len() && (forall|
        i: int,
    |
        0 <= i < ls.len() ==> #[trigger] ls[i] == TomlV::Str(r.locations@[i]@)))
    &&& m["subfolders"@] == TomlV::Bool(r.subfolders)
    &&& (m["filters"@] matches TomlV::Arr(fl) && r.filters@.len() == fl.len() && (forall|i: int|
        0 <= i < fl.len() ==> spec_filter_rel(r.filters@[i], #[trigger] fl[i])))
    &&& (m["actions"@] matches TomlV::Arr(al) && r.actions@.len() == al.len() && (forall|i: int|
        0 <= i < al.len() ==> spec_action_rel(r.actions@[i], #[trigger] al[i])))
}

/// Whether a TOML document is a well-formed configuration: a table whose
/// `rules` key carries an array of well-formed rule tables.
pub open spec fn spec_config_wf(t: TomlV) -> bool {
    &&& t matches TomlV::Tab(m)
    &&& m.dom().contains("rules"@)
    &&& (m["rules"@] matches TomlV::Arr(rs) && (forall|i: int|
        0 <= i < rs.len() ==> spec_rule_wf(#[trigger] rs[i])))
}

/// Whether `c` is the configuration a well-formed document denotes.
pub open spec fn spec_config_rel(c: Config, t: TomlV) -> bool {
    &&& t matches TomlV::Tab(m)
    &&& (m["rules"@] matches TomlV::Arr(rs) && c.rules@.len() == rs.len() && (forall|i: int|
        0 <= i < rs.len() ==> spec_rule_rel(c.rules@[i], #[trigger] rs[i])))
}

/// Reads one filter from its TOML value; `None` exactly when it is not
/// well-formed.
fn parse_filter(v: &toml::Value) -> (r: Option<Filter>)
    ensures
        match r {
            Some(f) => spec_filter_wf(toml_view(*v)) && spec_filter_rel(f, toml_view(*v)),
            None => !spec_filter_wf(toml_view(*v)),
        },
{
    match value_get(v, "extension") {
        Some(x) => match value_as_str(x) {
            Some(s) => Some(Filter::Extension { extension: crate::strutil::str_copy(s) }),
            None => None,
        },
        None => match value_get(v, "name_contains") {
            Some(x) => match value_as_str(x) {
                Some(s) => Some(Filter::NameContains { name_contains: crate::strutil::str_copy(s) }),
                None => None,
            },
            None => match value_get(v, "days_older_than") {
                Some(x) => match value_as_int(x) {
                    Some(i) => if 0 <= i && i <= u32::MAX as i64 {
                        Some(Filter::Age { days_older_than: Some(i as u32) })
                    } else {
                        None
                    },
                    None => None,
                },
                None => {
                    let gt_v = value_get(v, "size_gt");
                    let lt_v = value_get(v, "size_lt");
                    match (gt_v, lt_v) {
                        (None, None) => None,
                        (g, l) => {
                            let size_gt: Option<u64> = match g {
                                Some(x) => match value_as_int(x) {
                                    Some(i) => if i >= 0 {
                                        Some(i as u64)
                                    } else {
                                        return None;
                                    },
                                    None => {
                                        return None;
                                    },
                                },
                                None => None,
                            };
                            let size_lt: Option<u64> = match l {
                                Some(x) => match value_as_int(x) {
                                    Some(i) => if i >= 0 {
                                        Some(i as u64)
                                    } else {
                                        return None;
                                    },
                                    None => {
                                        return None;
                                    },
                                },
                                None => None,
                            };
                            Some(Filter::Size { size_gt, size_lt })
                        },
                    }
                },
            },
        },
    }
}

/// Reads one action from its TOML value; `None` exactly when it is not
/// well-formed.
fn parse_action(v: &toml::Value) -> (r: Option<Action>)
    ensures
        match r {
            Some(a) => spec_action_wf(toml_view(*v)) && spec_action_rel(a, toml_view(*v)),
            None => !spec_action_wf(toml_view(*v)),
        },
{
    match value_as_str(v) {
        Some(s) => if crate::strutil::str_eq(s, "delete") {
            Some(Action::Delete)
        } else {
            None
        },
        None => match value_get(v, "echo") {
            Some(x) => match value_as_str(x) {
                Some(s) => Some(Action::Echo(crate::strutil::str_copy(s))),
                None => None,
            },
            None => match value_get(v, "move") {
                Some(x) => match value_as_str(x) {
                    Some(s) => Some(Action::Move(crate::strutil::str_copy(s))),
                    None => None,
                },
                None => match value_get(v, "copy") {
                    Some(x) => match value_as_str(x) {
                        Some(s) => Some(Action::Copy(crate::strutil::str_copy(s))),
                        None => None,
                    },
                    None => match value_get(v, "rename") {
                        Some(x) => {
                            let pat = match value_get(x, "pattern") {
                                Some(p) => match value_as_str(p) {
                                    Some(s) => crate::strutil::str_copy(s),
                                    None => {
                                        return None;
                                    },
                                },
                                None => {
                                    return None;
                                },
                            };
                            let repl = match value_get(x, "replacement") {
                                Some(p) => match value_as_str(p) {
                                    Some(s) => crate::strutil::str_copy(s),
                                    None => {
                                        return None;
                                    },
                                },
                                None => {
                                    return None;
                                },
                            };
                            Some(Action::Rename { pattern: pat, replacement: repl })
                        },
                        None => None,
                    },
                },
            },
        },
    }
}

/// Reads one rule from its TOML value; `None` exactly when it is not
/// well-formed.
#[verifier::loop_isolation(false)]
fn parse_rule(v: &toml::Value) -> (r: Option<Rule>)
    ensures
        match r {
            Some(rl) => spec_rule_wf(toml_view(*v)) && spec_rule_rel(rl, toml_view(*v)),
            None => !spec_rule_wf(toml_view(*v)),
        },
{
    let name: String = match value_get(v, "name") {
        Some(x) => match value_as_str(x) {
            Some(s) => crate::strutil::str_copy(s),
            None => {
                return None;
            },
        },
        None => {
            return None;
        },
    };
    let locations: Vec<String> = match value_get(v, "locations") {
        Some(x) => match value_as_array(x) {
            Some(arr) => {
                let ghost ls = toml_view(*x)->Arr_0;
                let mut locs: Vec<String> = Vec::new();
                let n = arr.len();
                let mut i: usize = 0;
                while i < n
                    invariant
                        n == arr@.len(),
                        ls.len() == arr@.len(),
                        forall|k: int| 0 <= k < n ==> ls[k] == #[trigger] toml_view(arr@[k]),
                        0 <= i <= n,
                        locs@.len() == i,
                        forall|k: int|
                            0 <= k < i ==> #[trigger] ls[k] == TomlV::Str(locs@[k]@),
                    decreases n - i,
                {
                    match value_as_str(&arr[i]) {
                        Some(s) => {
                            locs.push(crate::strutil::str_copy(s));
                        },
                        None => {
                            return None;
                        },
                    }
                    i = i + 1;
                }
                locs
            },
            None => {
                return None;
            },
        },
        None => {
            return None;
        },
    };
    let subfolders: bool = match value_get(v, "subfolders") {
        Some(x) => match value_as_bool(x) {
            Some(b) => b,
            None => {
                return None;
            },
        },
        None => {
            return None;
        },
    };
    let filters: Vec<Filter> = match value_get(v, "filters") {
        Some(x) => match value_as_array(x) {
            Some(arr) => {
                let ghost fl = toml_view(*x)->Arr_0;
                let mut out: Vec<Filter> = Vec::new();
                let n = arr.len();
                let mut i: usize = 0;
                while i < n
                    invariant
                        n == arr@.len(),
                        fl.len() == arr@.len(),
                        forall|k: int| 0 <= k < n ==> fl[k] == #[trigger] toml_view(arr@[k]),
                        0 <= i <= n,
                        out@.len() == i,
                        forall|k: int| 0 <= k < i ==> spec_filter_wf(#[trigger] fl[k]),
                        forall|k: int|
                            0 <= k < i ==> spec_filter_rel(out@[k], #[trigger] fl[k]),
                    decreases n - i,
                {
                    match parse_filter(&arr[i]) {
                        Some(f) => {
                            out.push(f);
                        },
                        None => {
                            return None;
                        },
                    }
                    i = i + 1;
                }
                out
            },
            None => {
                return None;
            },
        },
        None => {
            return None;
        },
    };
    let actions: Vec<Action> = match value_get(v, "actions") {
        Some(x) => match value_as_array(x) {
            Some(arr) => {
                let ghost al = toml_view(*x)->Arr_0;
                let mut out: Vec<Action> = Vec::new();
                let n = arr.len();
                let mut i: usize = 0;
                while i < n
                    invariant
                        n == arr@.len(),
                        al.len() == arr@.len(),
                        forall|k: int| 0 <= k < n ==> al[k] == #[trigger] toml_view(arr@[k]),
                        0 <= i <= n,
                        out@.len() == i,
                        forall|k: int| 0 <= k < i ==> spec_action_wf(#[trigger] al[k]),
                        forall|k: int|
                            0 <= k < i ==> spec_action_rel(out@[k], #[trigger] al[k]),
                    decreases n - i,
                {
                    match parse_action(&arr[i]) {
                        Some(a) => {
                            out.push(a);
                        },
                        None => {
                            return None;
                        },
                    }
                    i = i + 1;
                }
                out
            },
            None => {
                return None;
            },
        },
        None => {
            return None;
        },
    };
    Some(Rule { name, locations, subfolders, filters, actions })
}

impl Config {
    /// Builds a configuration from the text of a TOML document. Fails with
    /// `Parse` exactly when the text is no TOML document, and with `Shape`
    /// exactly when the document is not a well-formed configuration; on
    /// success the result is the configuration the document denotes.
    #[verifier::loop_isolation(false)]
    pub fn new(toml_text: &str) -> (r: Result<Config, ConfigError>)
        ensures
            match r {
                Ok(c) => toml_of(toml_text@) matches Some(t) && spec_config_wf(t)
                    && spec_config_rel(c, t),
                Err(e) => if e is Parse {
                    toml_of(toml_text@) is None
                } else {
                    toml_of(toml_text@) matches Some(t) && !spec_config_wf(t)
                },
            },
    {
        let parsed = toml_parse(toml_text);
        match parsed {
            None => Err(ConfigError::Parse),
            Some(v) => {
                match value_get(&v, "rules") {
                    Some(x) => match value_as_array(x) {
                        Some(arr) => {
                            let ghost rs = toml_view(*x)->Arr_0;
                            let mut rules: Vec<Rule> = Vec::new();
                            let n = arr.len();
                            let mut i: usize = 0;
                            while i < n
                                invariant
                                    n == arr@.len(),
                                    rs.len() == arr@.len(),
                                    forall|k: int|
                                        0 <= k < n ==> rs[k] == #[trigger] toml_view(arr@[k]),
                                    0 <= i <= n,
                                    rules@.len() == i,
                                    forall|k: int| 0 <= k < i ==> spec_rule_wf(#[trigger] rs[k]),
                                    forall|k: int|
                                        0 <= k < i ==> spec_rule_rel(rules@[k], #[trigger] rs[k]),
                                decreases n - i,
                            {
                                match parse_rule(&arr[i]) {
                                    Some(rl) => {
                                        rules.push(rl);
                                    },
                                    None => {
                                        return Err(ConfigError::Shape);
                                    },
                                }
                                i = i + 1;
                            }
                            Ok(Config { rules })
                        },
                        None => Err(ConfigError::Shape),
                    },
                    None => Err(ConfigError::Shape),
                }
            },
        }
    }
}

} // verus!
