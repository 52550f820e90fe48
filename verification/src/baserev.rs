//! The revision that blame starts from.
//!
//! Without a "back to" list this is the head. With one, it is the range that
//! opens at the merge base of the head and the first revision of the list that
//! the backend can resolve and that is not the head itself: blame then names
//! no commit older than that merge base. To know it takes queries, so it is
//! done in steps: `query` names what to ask next, `answer` takes the reply.
use crate::error::AnnotateError;
use crate::query::{query_view, Query, QueryView};
use crate::text::{trim, trimmed};
use vstd::prelude::*;
use vstd::string::*;

verus! {

/// Where the search for the blame revision stands.
#[derive(Clone, Copy, Debug, PartialEq, Eq, Structural)]
pub enum Stage {
    /// The identifier of the candidate under `next` is asked for.
    Branch,
    /// The candidate resolved; the identifier of the head is asked for.
    Head,
    /// The candidate is not the head; their merge base is asked for.
    Merge,
    /// The blame revision is known.
    Settled,
}

/// The search for the blame revision.
pub struct BlameRev {
    back_to: Vec<String>,
    next: usize,
    stage: Stage,
    branch_id: String,
    head_id: Option<String>,
    rev: String,
}

/// The name of the head revision.
pub open spec fn head_name() -> Seq<char> {
    seq!['H', 'E', 'A', 'D']
}

/// What makes a revision the open end of a range.
pub open spec fn range_suffix() -> Seq<char> {
    seq!['.', '.']
}

/// The search as plain values: the candidates, the one under examination, what
/// it and the head resolved to, and the blame revision (the head until settled).
pub struct BlameRevView {
    pub back_to: Seq<Seq<char>>,
    pub next: nat,
    pub stage: Stage,
    pub branch_id: Seq<char>,
    pub head_id: Option<Seq<char>>,
    pub rev: Seq<char>,
}

impl BlameRevView {
    /// The search before any query, for the candidates `back_to`.
    pub open spec fn start(back_to: Option<Seq<Seq<char>>>) -> BlameRevView {
        let list = match back_to {
            Some(list) => list,
            None => Seq::empty(),
        };
        BlameRevView {
            back_to: list,
            next: 0,
            stage: if list.len() == 0 {
                Stage::Settled
            } else {
                Stage::Branch
            },
            branch_id: Seq::empty(),
            head_id: None,
            rev: head_name(),
        }
    }

    /// While the search goes on, there is a candidate under examination.
    pub open spec fn wf(self) -> bool {
        &&& self.next <= self.back_to.len()
        &&& self.stage != Stage::Settled ==> self.next < self.back_to.len()
    }

    /// Whether the blame revision is known.
    pub open spec fn settled(self) -> bool {
        self.stage == Stage::Settled
    }

    /// The query whose answer the search waits for.
    pub open spec fn query(self) -> Option<QueryView> {
        match self.stage {
            Stage::Branch => Some(QueryView::RevParse { rev: self.back_to[self.next as int] }),
            Stage::Head => Some(QueryView::RevParse { rev: head_name() }),
            Stage::Merge => Some(
                QueryView::MergeBase { head: head_name(), other: self.back_to[self.next as int] },
            ),
            Stage::Settled => None,
        }
    }

    /// The search after it gave up the candidate under examination: on to the
    /// next one, or settled on the head where none is left.
    pub open spec fn pass(self) -> BlameRevView {
        if self.next + 1 < self.back_to.len() {
            BlameRevView { next: self.next + 1, stage: Stage::Branch, ..self }
        } else {
            BlameRevView {
                next: self.back_to.len(),
                stage: Stage::Settled,
                rev: head_name(),
                ..self
            }
        }
    }

    /// The search once candidate and head are both resolved: a candidate that
    /// is the head is given up, any other has its merge base asked for.
    pub open spec fn compare(self, branch_id: Seq<char>, head_id: Seq<char>) -> BlameRevView {
        let known = BlameRevView { branch_id, head_id: Some(head_id), ..self };
        if branch_id == head_id {
            known.pass()
        } else {
            BlameRevView { stage: Stage::Merge, ..known }
        }
    }

    /// The search after the backend's answer to `self.query()`, `None` standing
    /// for a query that failed. Whitespace around an answer is no part of it.
    ///
    /// A candidate that does not resolve is given up. The head is resolved
    /// once. A head or a merge base that cannot be had ends the run. The
    /// answer to no query changes nothing.
    pub open spec fn answer(self, reply: Option<Seq<char>>) -> (BlameRevView, Result<
        (),
        AnnotateError,
    >) {
        let reply = match reply {
            Some(raw) => Some(trimmed(raw)),
            None => None,
        };
        match (self.stage, reply) {
            (Stage::Branch, None) => (self.pass(), Ok(())),
            (Stage::Branch, Some(id)) => match self.head_id {
                Some(head) => (self.compare(id, head), Ok(())),
                None => (BlameRevView { stage: Stage::Head, branch_id: id, ..self }, Ok(())),
            },
            (Stage::Head, Some(head)) => (self.compare(self.branch_id, head), Ok(())),
            (Stage::Merge, Some(base)) => (
                BlameRevView { stage: Stage::Settled, rev: base + range_suffix(), ..self },
                Ok(()),
            ),
            (Stage::Settled, _) => (self, Ok(())),
            (_, None) => (self, Err(AnnotateError::Backend)),
        }
    }

    /// How many answers the search can still take before it is settled, at most.
    pub open spec fn steps_left(self) -> nat {
        let per_candidate = 3 * (self.back_to.len() - self.next);
        match self.stage {
            Stage::Branch => per_candidate as nat,
            Stage::Head => (per_candidate - 1) as nat,
            Stage::Merge => (per_candidate - 2) as nat,
            Stage::Settled => 0,
        }
    }
}

/// The blame revision that the candidates `back_to`, from the one at `from`
/// on, lead to with a backend that answers each query `q` with `backend(q)`.
///
/// The first candidate that resolves, and to something other than the head,
/// decides: the blame revision is the range that opens at its merge base with
/// the head. With no such candidate it is the head. A head or a merge base
/// that the backend cannot give is an error.
pub open spec fn blame_rev_from(
    back_to: Seq<Seq<char>>,
    from: nat,
    backend: spec_fn(QueryView) -> Option<Seq<char>>,
) -> Result<Seq<char>, AnnotateError>
    decreases back_to.len() - from,
{
    if from >= back_to.len() {
        Ok(head_name())
    } else {
        match backend(QueryView::RevParse { rev: back_to[from as int] }) {
            None => blame_rev_from(back_to, from + 1, backend),
            Some(id) => match backend(QueryView::RevParse { rev: head_name() }) {
                None => Err(AnnotateError::Backend),
                Some(head) => if trimmed(id) == trimmed(head) {
                    blame_rev_from(back_to, from + 1, backend)
                } else {
                    match backend(
                        QueryView::MergeBase { head: head_name(), other: back_to[from as int] },
                    ) {
                        None => Err(AnnotateError::Backend),
                        Some(base) => Ok(trimmed(base) + range_suffix()),
                    }
                },
            },
        }
    }
}

impl BlameRevView {
    /// The search carried on with the answers of `backend` until it is
    /// settled or a query that it depends on fails.
    pub open spec fn settle(self, backend: spec_fn(QueryView) -> Option<Seq<char>>) -> (
        BlameRevView,
        Result<(), AnnotateError>,
    )
        decreases self.steps_left(),
        when self.wf()
    {
        match self.query() {
            None => (self, Ok(())),
            Some(q) => {
                let (next, taken) = self.answer(backend(q));
                if taken is Err {
                    (self, taken)
                } else {
                    proof {
                        lemma_answer_progress(self, backend(q));
                    }
                    next.settle(backend)
                }
            },
        }
    }
}

/// The search finds the blame revision: carried on with the answers of a
/// backend, from any candidate on, it settles on the revision that the
/// candidates lead to, or fails where that revision cannot be had.
pub proof fn lemma_settle_from(s: BlameRevView, backend: spec_fn(QueryView) -> Option<Seq<char>>)
    requires
        s.wf(),
        s.stage == Stage::Branch || (s.stage == Stage::Settled && s.next == s.back_to.len()),
        s.rev == head_name(),
        s.head_id matches Some(head) ==> (backend(QueryView::RevParse { rev: head_name() })
            matches Some(raw) && trimmed(raw) == head),
    ensures
        match blame_rev_from(s.back_to, s.next, backend) {
            Ok(rev) => {
                &&& s.settle(backend).1 is Ok
                &&& s.settle(backend).0.settled()
                &&& s.settle(backend).0.rev == rev
            },
            Err(e) => s.settle(backend).1 == Err::<(), AnnotateError>(e),
        },
    decreases s.back_to.len() - s.next,
{
    reveal_with_fuel(BlameRevView::settle, 4);
    if s.stage == Stage::Branch {
        let asked = backend(QueryView::RevParse { rev: s.back_to[s.next as int] });
        let head = backend(QueryView::RevParse { rev: head_name() });
        let s1 = s.answer(asked).0;
        lemma_answer_progress(s, asked);
        match asked {
            None => {
                lemma_settle_from(s1, backend);
            },
            Some(raw) => {
                let s2 = if s.head_id is Some {
                    s1
                } else {
                    s1.answer(head).0
                };
                if s.head_id is None {
                    lemma_answer_progress(s1, head);
                }
                if head is Some {
                    if trimmed(raw) == trimmed(head.unwrap()) {
                        lemma_settle_from(s2, backend);
                    } else {
                        let base = backend(
                            QueryView::MergeBase {
                                head: head_name(),
                                other: s.back_to[s.next as int],
                            },
                        );
                        lemma_answer_progress(s2, base);
                    }
                }
            },
        }
    }
}

/// From its start, the search settles on the blame revision of its candidates.
pub proof fn lemma_settle(
    back_to: Option<Seq<Seq<char>>>,
    backend: spec_fn(QueryView) -> Option<Seq<char>>,
)
    ensures
        ({
            let s = BlameRevView::start(back_to);
            match blame_rev_from(s.back_to, 0, backend) {
                Ok(rev) => {
                    &&& s.settle(backend).1 is Ok
                    &&& s.settle(backend).0.settled()
                    &&& s.settle(backend).0.rev == rev
                },
                Err(e) => s.settle(backend).1 == Err::<(), AnnotateError>(e),
            }
        }),
{
    lemma_settle_from(BlameRevView::start(back_to), backend);
}

/// The search comes to an end: every answer that it accepts brings it closer
/// to a settled revision, and a settled search asks nothing.
pub proof fn lemma_answer_progress(s: BlameRevView, reply: Option<Seq<char>>)
    requires
        s.wf(),
    ensures
        s.answer(reply).0.wf(),
        s.settled() <==> s.query() is None,
        !s.settled() && s.answer(reply).1 is Ok ==> s.answer(reply).0.steps_left() < s.steps_left(),
        s.answer(reply).1 is Err ==> s.answer(reply).0 == s,
{
}

impl View for BlameRev {
    type V = BlameRevView;

    closed spec fn view(&self) -> BlameRevView {
        BlameRevView {
            back_to: self.back_to.deep_view(),
            next: self.next as nat,
            stage: self.stage,
            branch_id: self.branch_id@,
            head_id: self.head_id.deep_view(),
            rev: self.rev@,
        }
    }
}

impl BlameRev {
    /// A search among the candidates `back_to`, in their order.
    pub fn new(back_to: Option<Vec<String>>) -> (r: BlameRev)
        ensures
            r@ == BlameRevView::start(back_to.deep_view()),
            r@.wf(),
    {
        let list: Vec<String> = match back_to {
            Some(list) => list,
            None => Vec::new(),
        };
        let stage = if list.len() == 0 {
            Stage::Settled
        } else {
            Stage::Branch
        };
        proof {
            reveal_strlit("HEAD");
            assert("HEAD"@ == head_name());
            assert(list.deep_view() == BlameRevView::start(back_to.deep_view()).back_to);
        }
        BlameRev {
            back_to: list,
            next: 0,
            stage,
            branch_id: String::new(),
            head_id: None,
            rev: "HEAD".to_owned(),
        }
    }

    /// Whether the blame revision is known.
    pub fn settled(&self) -> (r: bool)
        ensures
            r == self@.settled(),
    {
        match self.stage {
            Stage::Settled => true,
            _ => false,
        }
    }

    /// The blame revision: the head until the search is settled.
    pub fn rev(&self) -> (r: &String)
        ensures
            r@ == self@.rev,
    {
        &self.rev
    }

    /// The query that the backend is to answer next, if the search is not settled.
    pub fn query(&self) -> (r: Option<Query>)
        requires
            self@.wf(),
        ensures
            query_view(r) == self@.query(),
    {
        proof {
            reveal_strlit("HEAD");
            assert("HEAD"@ == head_name());
        }
        match self.stage {
            Stage::Branch => {
                assert(self.back_to.deep_view()[self.next as int] == self.back_to[self.next as int]@);
                Some(Query::RevParse { rev: self.back_to[self.next].clone() })
            },
            Stage::Head => Some(Query::RevParse { rev: "HEAD".to_owned() }),
            Stage::Merge => {
                assert(self.back_to.deep_view()[self.next as int] == self.back_to[self.next as int]@);
                Some(
                    Query::MergeBase {
                        head: "HEAD".to_owned(),
                        other: self.back_to[self.next].clone(),
                    },
                )
            },
            Stage::Settled => None,
        }
    }

    fn pass(&mut self)
        requires
            old(self)@.wf(),
            !old(self)@.settled(),
        ensures
            final(self)@ == old(self)@.pass(),
            final(self)@.wf(),
    {
        assert(self.back_to.deep_view().len() == self.back_to.len());
        if self.next + 1 < self.back_to.len() {
            self.next = self.next + 1;
            self.stage = Stage::Branch;
        } else {
            proof {
                reveal_strlit("HEAD");
                assert("HEAD"@ == head_name());
            }
            self.next = self.back_to.len();
            self.stage = Stage::Settled;
            self.rev = "HEAD".to_owned();
        }
    }

    fn compare(&mut self, branch_id: String, head_id: String)
        requires
            old(self)@.wf(),
            !old(self)@.settled(),
        ensures
            final(self)@ == old(self)@.compare(branch_id@, head_id@),
            final(self)@.wf(),
    {
        let same = branch_id == head_id;
        self.branch_id = branch_id;
        self.head_id = Some(head_id);
        if same {
            self.pass();
        } else {
            self.stage = Stage::Merge;
        }
    }

    /// Takes the backend's answer to `self.query()`; `None` says that the query failed.
    pub fn answer(&mut self, reply: Option<String>) -> (r: Result<(), AnnotateError>)
        requires
            old(self)@.wf(),
        ensures
            (final(self)@, r) == old(self)@.answer(reply.deep_view()),
            final(self)@.wf(),
    {
        let reply: Option<String> = match reply {
            Some(raw) => Some(trim(raw.as_str()).to_owned()),
            None => None,
        };
        match self.stage {
            Stage::Settled => Ok(()),
            Stage::Branch => {
                match reply {
                    None => {
                        self.pass();
                        Ok(())
                    },
                    Some(id) => {
                        let head: Option<String> = self.head_id.clone();
                        match head {
                            Some(head) => {
                                self.compare(id, head);
                                Ok(())
                            },
                            None => {
                                self.stage = Stage::Head;
                                self.branch_id = id;
                                Ok(())
                            },
                        }
                    },
                }
            },
            Stage::Head => {
                match reply {
                    None => Err(AnnotateError::Backend),
                    Some(head) => {
                        let id = self.branch_id.clone();
                        self.compare(id, head);
                        Ok(())
                    },
                }
            },
            Stage::Merge => {
                match reply {
                    None => Err(AnnotateError::Backend),
                    Some(base) => {
                        proof {
                            reveal_strlit("..");
                            assert(".."@ == range_suffix());
                        }
                        self.rev = base.concat("..");
                        self.stage = Stage::Settled;
                        Ok(())
                    },
                }
            },
        }
    }
}

} // verus!
