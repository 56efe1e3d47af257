//! The policy for the program name shown in every line's prefix block:
//! take the build identifier, take a fixed string, or show none. The
//! identifier itself is read from the environment by the caller and handed
//! in as a plain value, so resolution is a total function.

use vstd::prelude::*;
use crate::padding::str_eq;

verus! {

/// How the display program name is chosen.
pub enum ProgramName {
    /// Use the build identifier (the caller's environment snapshot).
    CrateName,
    /// Use this string as given.
    Custom(String),
    /// Show no program name.
    Disable,
}

impl ProgramName {
    /// Resolve the policy against `crate_name`, the identifier the caller
    /// read from its environment (`None` when it was absent).
    pub fn try_to_string(&self, crate_name: Option<String>) -> (r: Option<String>)
        ensures
            self is CrateName ==> r == crate_name,
            self matches ProgramName::Custom(s) ==> r == Some(*s),
            self is Disable ==> r is None,
    {
        match self {
            Self::CrateName => crate_name,
            Self::Custom(s) => Some(s.clone()),
            Self::Disable => None,
        }
    }

    /// The policy a bare string stands for: the sentinel names select the
    /// build identifier, anything else is a literal custom name.
    pub fn from_name(value: &str) -> (r: ProgramName)
        ensures
            (value@ == "CRATE_NAME"@ || value@ == "PKG_NAME"@ || value@ == "CARGO_PKG_NAME"@)
                ==> r is CrateName,
            !(value@ == "CRATE_NAME"@ || value@ == "PKG_NAME"@ || value@ == "CARGO_PKG_NAME"@)
                ==> (r matches ProgramName::Custom(s) && s@ == value@),
    {
        if str_eq(value, "CRATE_NAME") || str_eq(value, "PKG_NAME") || str_eq(
            value,
            "CARGO_PKG_NAME",
        ) {
            ProgramName::CrateName
        } else {
            ProgramName::Custom(value.to_owned())
        }
    }
}

} // verus!
