//! What ends a run.
use vstd::prelude::*;
use vstd::string::*;

verus! {

/// The reasons for which annotation stops. Each of them is fatal: no line is
/// annotated after it.
#[derive(Clone, Copy, Debug, PartialEq, Eq, Structural)]
pub enum AnnotateError {
    /// A hunk header lacks its old range, or a number of it cannot be read.
    MalformedHunk,
    /// A line of a blame listing names no revision.
    MalformedBlame,
    /// The backend could not answer a query that the run depends on.
    Backend,
}

impl AnnotateError {
    /// The text of each error.
    pub open spec fn spec_message(self) -> Seq<char> {
        match self {
            AnnotateError::MalformedHunk => "malformed hunk header"@,
            AnnotateError::MalformedBlame => "blame listing: line without a revision"@,
            AnnotateError::Backend => "backend query failed"@,
        }
    }

    /// A short description for the user.
    pub fn message(&self) -> (r: String)
        ensures
            r@ == self.spec_message(),
    {
        match self {
            AnnotateError::MalformedHunk => "malformed hunk header".to_owned(),
            AnnotateError::MalformedBlame => "blame listing: line without a revision".to_owned(),
            AnnotateError::Backend => "backend query failed".to_owned(),
        }
    }
}

} // verus!
