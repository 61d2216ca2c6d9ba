use vstd::prelude::*;
use vstd::string::StringExecFns;

verus! {

/// Errors reported by the workspace, its stores and the agent runtime.
#[derive(Debug)]
pub enum HyperspaceError {
    DimensionNotFound(String),
    ObjectNotFound(String),
    Filesystem(String),
    AiRuntime(String),
}

/// The text shown for an error.
pub open spec fn error_message(e: HyperspaceError) -> Seq<char> {
    match e {
        HyperspaceError::DimensionNotFound(s) => "dimension not found: "@ + s@,
        HyperspaceError::ObjectNotFound(s) => "object not found: "@ + s@,
        HyperspaceError::Filesystem(s) => "filesystem error: "@ + s@,
        HyperspaceError::AiRuntime(s) => "ai runtime error: "@ + s@,
    }
}

impl HyperspaceError {
    /// The text shown for this error, e.g. `filesystem error: <detail>`.
    pub fn message(&self) -> (m: String)
        ensures
            m@ == error_message(*self),
    {
        match self {
            HyperspaceError::DimensionNotFound(s) => {
                let mut m = String::from_str("dimension not found: ");
                m.append(s.as_str());
                m
            },
            HyperspaceError::ObjectNotFound(s) => {
                let mut m = String::from_str("object not found: ");
                m.append(s.as_str());
                m
            },
            HyperspaceError::Filesystem(s) => {
                let mut m = String::from_str("filesystem error: ");
                m.append(s.as_str());
                m
            },
            HyperspaceError::AiRuntime(s) => {
                let mut m = String::from_str("ai runtime error: ");
                m.append(s.as_str());
                m
            },
        }
    }
}

} // verus!
