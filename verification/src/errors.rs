//! The run's error taxonomy. Every error is fatal to the run: no component
//! catches one and continues, and each carries the context (document path,
//! offending URL) that identifies where it arose.

use vstd::prelude::*;

verus! {

/// One error of the run. Each variant names the failure and carries the
/// identifying context.
#[derive(Debug)]
pub enum NotationError {
    /// A link or image URL is not a well-formed absolute URL.
    Validation { page: String, url: String },
    /// A relative link's target path was never discovered in this run.
    UnresolvedLink { page: String, url: String },
    /// A document's metadata directive line could not be parsed.
    ArgParse { page: String, detail: String },
    /// A name-based page lookup returned zero or more than one match.
    AmbiguousLookup { name: String, count: usize },
    /// A remote call returned a non-success status.
    RemoteApi { status: u16, body: String },
    /// A file read or glob expansion failed.
    Io { detail: String },
}

impl NotationError {
    /// A short label naming the variant, for error reporting.
    pub fn label(&self) -> (r: &'static str)
        ensures
            r@ == self.label_spec(),
    {
        match self {
            NotationError::Validation { .. } => "invalid url",
            NotationError::UnresolvedLink { .. } => "unresolved link",
            NotationError::ArgParse { .. } => "bad metadata directive",
            NotationError::AmbiguousLookup { .. } => "ambiguous page lookup",
            NotationError::RemoteApi { .. } => "remote call failed",
            NotationError::Io { .. } => "io failure",
        }
    }

    pub open spec fn label_spec(&self) -> Seq<char> {
        match self {
            NotationError::Validation { .. } => "invalid url"@,
            NotationError::UnresolvedLink { .. } => "unresolved link"@,
            NotationError::ArgParse { .. } => "bad metadata directive"@,
            NotationError::AmbiguousLookup { .. } => "ambiguous page lookup"@,
            NotationError::RemoteApi { .. } => "remote call failed"@,
            NotationError::Io { .. } => "io failure"@,
        }
    }
}

} // verus!
