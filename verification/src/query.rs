//! The questions that annotation puts to the revision-control backend.
//!
//! The library performs no query itself. It names the query that it needs
//! answered; the caller runs it and hands the answer back.
use vstd::prelude::*;
use vstd::string::*;

verus! {

/// A query for the backend.
#[derive(Debug)]
pub enum Query {
    /// The identifier that the revision expression `rev` names.
    RevParse { rev: String },
    /// The merge base of the revisions `head` and `other`.
    MergeBase { head: String, other: String },
    /// Who last touched the lines of `file` from `start` up to `end`, the
    /// line `end` left out, as seen from `rev`, with identifiers abbreviated
    /// to at least `abbrev` digits.
    Blame { rev: String, abbrev: usize, start: u32, end: u32, file: String },
    /// One line for each of `revs`: its commit time in seconds, a space, and
    /// the commit rendered by `format`, identifiers abbreviated to `abbrev`.
    Show { abbrev: usize, format: String, revs: Vec<String> },
}

/// A query, with its texts as sequences of characters.
pub enum QueryView {
    RevParse { rev: Seq<char> },
    MergeBase { head: Seq<char>, other: Seq<char> },
    Blame { rev: Seq<char>, abbrev: nat, start: nat, end: nat, file: Seq<char> },
    Show { abbrev: nat, format: Seq<char>, revs: Seq<Seq<char>> },
}

impl View for Query {
    type V = QueryView;

    open spec fn view(&self) -> QueryView {
        match self {
            Query::RevParse { rev } => QueryView::RevParse { rev: rev@ },
            Query::MergeBase { head, other } => QueryView::MergeBase {
                head: head@,
                other: other@,
            },
            Query::Blame { rev, abbrev, start, end, file } => QueryView::Blame {
                rev: rev@,
                abbrev: *abbrev as nat,
                start: *start as nat,
                end: *end as nat,
                file: file@,
            },
            Query::Show { abbrev, format, revs } => QueryView::Show {
                abbrev: *abbrev as nat,
                format: format@,
                revs: revs.deep_view(),
            },
        }
    }
}

/// The view of a query that may be absent.
pub open spec fn query_view(q: Option<Query>) -> Option<QueryView> {
    match q {
        Some(q) => Some(q@),
        None => None,
    }
}

} // verus!
