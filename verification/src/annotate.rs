//! The annotation engine: it follows a diff line by line and says, for each
//! line, which annotation field goes in front of it.
//!
//! The engine reads no input and runs no command. Its caller feeds it the lines
//! of the diff in their order. On a hunk header the engine names the blame
//! query for the hunk's old range; the caller has the backend answer it and
//! hands the listing back before it feeds the next line.
use crate::ansi::{ansi_stripped, strip_ansi};
use crate::baserev::{BlameRev, BlameRevView};
use crate::error::AnnotateError;
use crate::hunk::{old_range, parse_old_range};
use crate::line::{classify_in, kind_in, old_file, old_path, LineKind};
use crate::query::{query_view, Query, QueryView};
use crate::revision::{
    added_mark, boundary, boundary_mark, display_width, is_boundary, named, named_field, padded,
    padding, unknown_mark, width_of, ABBREV,
};
use crate::text::{lines, split_lines, split_whitespace, trim, trimmed, words};
use vstd::prelude::*;
use vstd::string::*;

verus! {

/// What the engine says of a line.
#[derive(Debug)]
pub enum LineStep {
    /// The line is dealt with: the field that goes in front of it, if any.
    Prefix(Option<String>),
    /// The line opens a hunk and gets no field. The backend is to answer the
    /// query, and `blame_hunk` takes the listing, before the next line.
    Blame(Query),
}

/// What the engine says of a line, as plain values.
pub enum LineStepView {
    Prefix(Option<Seq<char>>),
    Blame(QueryView),
}

impl View for LineStep {
    type V = LineStepView;

    open spec fn view(&self) -> LineStepView {
        match self {
            LineStep::Prefix(p) => LineStepView::Prefix(p.deep_view()),
            LineStep::Blame(q) => LineStepView::Blame(q@),
        }
    }
}

/// The view of a step or of the error in its place.
pub open spec fn step_view(r: Result<LineStep, AnnotateError>) -> Result<
    LineStepView,
    AnnotateError,
> {
    match r {
        Ok(step) => Ok(step@),
        Err(e) => Err(e),
    }
}

/// The identifiers that a blame listing names: the first word of each of its
/// lines, in their order. Whitespace around the listing is no part of it. A
/// listing with a line that holds no word names none.
pub open spec fn blame_ids(listing: Seq<char>) -> Option<Seq<Seq<char>>> {
    let ls = lines(trimmed(listing));
    if forall|i: int| 0 <= i < ls.len() ==> words(#[trigger] ls[i]).len() > 0 {
        Some(Seq::new(ls.len(), |i: int| words(ls[i])[0]))
    } else {
        None
    }
}

/// Annotates each line of a diff with the commit that last touched it.
pub struct DiffAnnotator {
    inner: Option<Vec<String>>,
    base: BlameRev,
    format: Option<String>,
    commits: Vec<String>,
    candidates: Vec<String>,
    file: Option<String>,
    start: u32,
    end: u32,
    offset: u64,
    maxlen: usize,
}

/// The engine as plain values.
pub struct AnnotatorView {
    /// The inner filter: its command and arguments.
    pub inner: Option<Seq<Seq<char>>>,
    /// The format of the summary of commits, if one is wanted.
    pub format: Option<Seq<char>>,
    /// The search for the blame revision.
    pub base: BlameRevView,
    /// The old file of the diff at hand, if it can be blamed.
    pub file: Option<Seq<char>>,
    /// The first old line of the hunk at hand.
    pub start: nat,
    /// The line after the last old line of the hunk at hand.
    pub end: nat,
    /// The cursor: the old line that the next context or removed line stands for.
    pub offset: nat,
    /// The identifiers of the hunk's old lines, from `start` on.
    pub commits: Seq<Seq<char>>,
    /// The width of the annotation field in this hunk.
    pub width: nat,
    /// The commits that some field has named so far, each once.
    pub candidates: Seq<Seq<char>>,
}

impl AnnotatorView {
    /// The engine before the first line.
    pub open spec fn initial(
        inner: Option<Seq<Seq<char>>>,
        back_to: Option<Seq<Seq<char>>>,
        format: Option<Seq<char>>,
    ) -> AnnotatorView {
        AnnotatorView {
            inner,
            format,
            base: BlameRevView::start(back_to),
            file: None,
            start: 0,
            end: 0,
            offset: 0,
            commits: Seq::empty(),
            width: ABBREV as nat,
            candidates: Seq::empty(),
        }
    }

    /// What holds of the engine at all times: the hunk's range and the cursor
    /// are numbers that it can hold; the field is as wide as the hunk's
    /// identifiers need; and the candidates are commits, each once.
    pub open spec fn wf(self) -> bool {
        &&& self.base.wf()
        &&& self.start <= u32::MAX
        &&& self.end <= u32::MAX
        &&& self.offset <= u64::MAX
        &&& self.width == display_width(self.commits)
        &&& self.candidates.no_duplicates()
        &&& forall|i: int|
            0 <= i < self.candidates.len() ==> !is_boundary(#[trigger] self.candidates[i])
    }

    /// The identifier of the old line under the cursor, if the hunk's list
    /// reaches that far.
    pub open spec fn lookup(self) -> Option<Seq<char>> {
        if self.start <= self.offset < self.start + self.commits.len() {
            Some(self.commits[self.offset - self.start])
        } else {
            None
        }
    }

    /// The engine with `id` among its candidates.
    pub open spec fn note(self, id: Seq<char>) -> AnnotatorView {
        if self.candidates.contains(id) {
            self
        } else {
            AnnotatorView { candidates: self.candidates.push(id), ..self }
        }
    }

    /// Whether the engine stands inside a hunk that has old lines left.
    pub open spec fn in_body(self) -> bool {
        self.start <= self.offset < self.end
    }

    /// The kind of the line `line` where the engine stands.
    pub open spec fn kind(self, line: Seq<char>) -> LineKind {
        kind_in(self.in_body(), line)
    }

    /// The engine with the cursor one line on. The cursor rests on the
    /// largest number that it can hold.
    pub open spec fn advance(self) -> AnnotatorView {
        if self.offset < u64::MAX {
            AnnotatorView { offset: self.offset + 1, ..self }
        } else {
            self
        }
    }

    /// The engine at the head of a hunk whose old lines are `start` up to
    /// `end`: the cursor on the first of them, and no identifier known yet.
    pub open spec fn enter_hunk(self, start: nat, end: nat) -> AnnotatorView {
        AnnotatorView {
            start,
            end,
            offset: start,
            commits: Seq::empty(),
            width: ABBREV as nat,
            ..self
        }
    }

    /// The blame query for the old lines of `file` from `start` up to `end`,
    /// the line `end` left out.
    pub open spec fn blame_query(self, start: nat, end: nat, file: Seq<char>) -> QueryView {
        QueryView::Blame {
            rev: self.base.rev,
            abbrev: (ABBREV - 1) as nat,
            start,
            end,
            file,
        }
    }

    /// The engine after the backend's answer to the query of the search for
    /// the blame revision.
    pub open spec fn resolve(self, reply: Option<Seq<char>>) -> (AnnotatorView, Result<
        (),
        AnnotateError,
    >) {
        (AnnotatorView { base: self.base.answer(reply).0, ..self }, self.base.answer(reply).1)
    }

    /// How the summary has the backend render a commit: its time in seconds,
    /// a space, and the commit in the configured format.
    pub open spec fn show_format(format: Seq<char>) -> Seq<char> {
        seq!['%', 'a', 't', ' '] + format
    }

    /// The query for the summary: where a format is configured and a commit
    /// was named, one to show every candidate. Without candidates there is
    /// nothing to ask.
    pub open spec fn show_query(self) -> Option<QueryView> {
        match self.format {
            Some(format) => if self.candidates.len() > 0 {
                Some(
                    QueryView::Show {
                        abbrev: ABBREV as nat,
                        format: Self::show_format(format),
                        revs: self.candidates,
                    },
                )
            } else {
                None
            },
            None => None,
        }
    }

    /// The engine after the line `line`, free of escape sequences, and what it
    /// says of that line. The line is taken for what it is where the engine
    /// stands.
    ///
    /// - The old file's marker sets the file at hand, or clears it.
    /// - A hunk header is read for its old range, and is an error without one.
    ///   The engine enters the hunk; where a file is at hand it asks for the
    ///   blame of the range.
    /// - A context or removed line takes the identifier under the cursor and
    ///   moves the cursor on, found or not. A commit is named and becomes a
    ///   candidate; a boundary and a missing identifier are drawn as marks of
    ///   the field's width.
    /// - An added line is drawn as marks of the field's width.
    /// - Any other line gets nothing.
    pub open spec fn process(self, line: Seq<char>) -> (AnnotatorView, Result<
        LineStepView,
        AnnotateError,
    >) {
        match self.kind(line) {
            LineKind::FileOld => (
                AnnotatorView { file: old_file(line), ..self },
                Ok(LineStepView::Prefix(None)),
            ),
            LineKind::FileNew | LineKind::Other => (self, Ok(LineStepView::Prefix(None))),
            LineKind::HunkHeader => match old_range(line) {
                None => (self, Err(AnnotateError::MalformedHunk)),
                Some((start, end)) => match self.file {
                    Some(file) => (
                        self.enter_hunk(start, end),
                        Ok(LineStepView::Blame(self.blame_query(start, end, file))),
                    ),
                    None => (self.enter_hunk(start, end), Ok(LineStepView::Prefix(None))),
                },
            },
            LineKind::Context | LineKind::Removed => match self.lookup() {
                Some(id) => if is_boundary(id) {
                    (
                        self.advance(),
                        Ok(LineStepView::Prefix(Some(padding(boundary_mark(), self.width)))),
                    )
                } else {
                    (self.advance().note(id), Ok(LineStepView::Prefix(Some(named(id)))))
                },
                None => (
                    self.advance(),
                    Ok(LineStepView::Prefix(Some(padding(unknown_mark(), self.width)))),
                ),
            },
            LineKind::Added => (
                self,
                Ok(LineStepView::Prefix(Some(padding(added_mark(), self.width)))),
            ),
        }
    }

    /// The engine after the blame listing of the hunk at hand: the listing's
    /// identifiers stand for the old lines from the hunk's start on, the field
    /// is as wide as they need, and the cursor is on the hunk's first line.
    /// A listing that names no identifier on some line is an error.
    pub open spec fn install(self, listing: Seq<char>) -> (AnnotatorView, Result<
        (),
        AnnotateError,
    >) {
        match blame_ids(listing) {
            Some(ids) => (
                AnnotatorView {
                    commits: ids,
                    width: display_width(ids),
                    offset: self.start,
                    ..self
                },
                Ok(()),
            ),
            None => (self, Err(AnnotateError::MalformedBlame)),
        }
    }
}

impl View for DiffAnnotator {
    type V = AnnotatorView;

    closed spec fn view(&self) -> AnnotatorView {
        AnnotatorView {
            inner: self.inner.deep_view(),
            format: self.format.deep_view(),
            base: self.base@,
            file: self.file.deep_view(),
            start: self.start as nat,
            end: self.end as nat,
            offset: self.offset as nat,
            commits: self.commits.deep_view(),
            width: self.maxlen as nat,
            candidates: self.candidates.deep_view(),
        }
    }
}

/// Reads the identifiers off a blame listing.
pub fn parse_blame(listing: &str) -> (r: Option<Vec<String>>)
    ensures
        r.deep_view() == blame_ids(listing@),
{
    let ls = split_lines(trim(listing));
    let ghost all = lines(trimmed(listing@));
    let mut ids: Vec<String> = Vec::new();
    let mut i: usize = 0;
    while i < ls.len()
        invariant
            ls.deep_view() == all,
            all == lines(trimmed(listing@)),
            0 <= i <= ls.len(),
            ids.len() == i,
            forall|j: int| 0 <= j < i ==> words(#[trigger] all[j]).len() > 0,
            forall|j: int| 0 <= j < i ==> (#[trigger] ids[j])@ == words(all[j])[0],
        decreases ls.len() - i,
    {
        assert(ls.deep_view()[i as int] == ls[i as int]@);
        let mut ws = split_whitespace(ls[i].as_str());
        if ws.len() == 0 {
            assert(words(all[i as int]).len() == 0);
            return None;
        }
        assert(ws.deep_view()[0] == ws[0]@);
        let id = ws.swap_remove(0);
        ids.push(id);
        i += 1;
    }
    assert(ids.deep_view() == blame_ids(listing@).unwrap());
    Some(ids)
}

impl DiffAnnotator {
    /// An engine for a run with the inner filter `inner`, the "back to" list
    /// `back_to` and the summary format `format`, each optional. The blame
    /// revision is the head until `make_blame_rev` has taken the answers that
    /// settle it; nothing here can fail.
    pub fn new(inner: Option<Vec<String>>, back_to: Option<Vec<String>>, format: Option<String>) -> (r:
        Result<DiffAnnotator, AnnotateError>)
        ensures
            r matches Ok(a) && a@.wf() && a@ == AnnotatorView::initial(
                inner.deep_view(),
                back_to.deep_view(),
                format.deep_view(),
            ),
    {
        let commits: Vec<String> = Vec::new();
        let candidates: Vec<String> = Vec::new();
        assert(commits.deep_view() == Seq::<Seq<char>>::empty());
        assert(candidates.deep_view() == Seq::<Seq<char>>::empty());
        Ok(
            DiffAnnotator {
                inner,
                base: BlameRev::new(back_to),
                format,
                commits,
                candidates,
                file: None,
                start: 0,
                end: 0,
                offset: 0,
                maxlen: ABBREV,
            },
        )
    }

    /// The query that the backend is to answer next in the search for the
    /// blame revision; none once that revision is known.
    pub fn rev_query(&self) -> (r: Option<Query>)
        requires
            self@.wf(),
        ensures
            query_view(r) == self@.base.query(),
            r is None <==> self@.base.settled(),
    {
        self.base.query()
    }

    /// Takes the backend's answer to `self.rev_query()`, `None` for a query
    /// that failed, and moves the search for the blame revision on.
    pub fn make_blame_rev(&mut self, reply: Option<String>) -> (r: Result<(), AnnotateError>)
        requires
            old(self)@.wf(),
        ensures
            final(self)@.wf(),
            (final(self)@, r) == old(self)@.resolve(reply.deep_view()),
    {
        self.base.answer(reply)
    }

    /// The query for the summary of commits, if a summary is wanted.
    pub fn show_query(&self) -> (r: Option<Query>)
        requires
            self@.wf(),
        ensures
            query_view(r) == self@.show_query(),
    {
        if self.candidates.len() == 0 {
            assert(self.candidates.deep_view().len() == 0);
            return None;
        }
        assert(self.candidates.deep_view().len() > 0);
        match &self.format {
            Some(format) => {
                proof {
                    reveal_strlit("%at ");
                    assert("%at "@ == seq!['%', 'a', 't', ' ']);
                }
                let mut revs: Vec<String> = Vec::new();
                let mut i: usize = 0;
                while i < self.candidates.len()
                    invariant
                        0 <= i <= self.candidates.len(),
                        revs.len() == i,
                        forall|j: int| 0 <= j < i ==> (#[trigger] revs[j])@ == self.candidates[j]@,
                    decreases self.candidates.len() - i,
                {
                    revs.push(self.candidates[i].clone());
                    i += 1;
                }
                assert(revs.deep_view() == self.candidates.deep_view());
                Some(
                    Query::Show {
                        abbrev: ABBREV,
                        format: "%at ".to_owned().concat(format.as_str()),
                        revs,
                    },
                )
            },
            None => None,
        }
    }

    /// Whether an inner filter is configured.
    pub fn has_filter(&self) -> (r: bool)
        ensures
            r == (self@.inner is Some),
    {
        self.inner.is_some()
    }

    /// The inner filter: its command and arguments.
    pub fn inner(&self) -> (r: &Option<Vec<String>>)
        ensures
            r.deep_view() == self@.inner,
    {
        &self.inner
    }

    /// The format of the summary, if one is wanted.
    pub fn format(&self) -> (r: &Option<String>)
        ensures
            r.deep_view() == self@.format,
    {
        &self.format
    }

    /// The blame revision: the head until the search for it is settled.
    pub fn rev(&self) -> (r: &String)
        ensures
            r@ == self@.base.rev,
    {
        self.base.rev()
    }

    /// The old file of the diff at hand, if it can be blamed.
    pub fn file(&self) -> (r: &Option<String>)
        ensures
            r.deep_view() == self@.file,
    {
        &self.file
    }

    /// The first old line of the hunk at hand.
    pub fn start(&self) -> (r: u32)
        ensures
            r == self@.start,
    {
        self.start
    }

    /// The line after the last old line of the hunk at hand.
    pub fn end(&self) -> (r: u32)
        ensures
            r == self@.end,
    {
        self.end
    }

    /// The cursor: the old line that the next context or removed line stands for.
    pub fn offset(&self) -> (r: u64)
        ensures
            r == self@.offset,
    {
        self.offset
    }

    /// The width of the annotation field in the hunk at hand.
    pub fn width(&self) -> (r: usize)
        ensures
            r == self@.width,
    {
        self.maxlen
    }

    /// The commits that some field has named so far, in the order in which
    /// they were first named.
    pub fn candidates(&self) -> (r: &Vec<String>)
        ensures
            r.deep_view() == self@.candidates,
    {
        &self.candidates
    }

    /// The identifier of the old line under the cursor, if the hunk's list
    /// reaches that far.
    pub fn lookup_commit(&self) -> (r: Option<String>)
        requires
            self@.wf(),
        ensures
            r.deep_view() == self@.lookup(),
    {
        let start: u64 = self.start as u64;
        if self.offset >= start && self.offset - start < self.commits.len() as u64 {
            let i: usize = (self.offset - start) as usize;
            assert(self.commits.deep_view()[i as int] == self.commits[i as int]@);
            Some(self.commits[i].clone())
        } else {
            None
        }
    }

    /// Reads the hunk header `line` and notes where its hunk starts. Returns
    /// the line after the last old line of the hunk. Nothing but the start
    /// changes.
    pub fn parse_hunk(&mut self, line: &str) -> (r: Result<u32, AnnotateError>)
        requires
            old(self)@.wf(),
        ensures
            final(self)@.wf(),
            match old_range(line@) {
                Some((start, end)) => {
                    &&& r == Ok::<u32, AnnotateError>(end as u32)
                    &&& final(self)@ == (AnnotatorView { start, ..old(self)@ })
                },
                None => {
                    &&& r == Err::<u32, AnnotateError>(AnnotateError::MalformedHunk)
                    &&& final(self)@ == old(self)@
                },
            },
    {
        match parse_old_range(line) {
            Some((start, end)) => {
                self.start = start;
                Ok(end)
            },
            None => Err(AnnotateError::MalformedHunk),
        }
    }

    /// Takes the blame listing that answers the query of the last hunk header.
    pub fn blame_hunk(&mut self, listing: &str) -> (r: Result<(), AnnotateError>)
        requires
            old(self)@.wf(),
        ensures
            final(self)@.wf(),
            (final(self)@, r) == old(self)@.install(listing@),
    {
        match parse_blame(listing) {
            Some(ids) => {
                self.maxlen = width_of(&ids);
                self.commits = ids;
                self.offset = self.start as u64;
                Ok(())
            },
            None => Err(AnnotateError::MalformedBlame),
        }
    }

    fn note(&mut self, id: String)
        requires
            old(self)@.wf(),
            !is_boundary(id@),
        ensures
            final(self)@.wf(),
            final(self)@ == old(self)@.note(id@),
    {
        let mut i: usize = 0;
        while i < self.candidates.len()
            invariant
                *self == *old(self),
                self@.wf(),
                !is_boundary(id@),
                0 <= i <= self.candidates.len(),
                forall|j: int| 0 <= j < i ==> (#[trigger] self.candidates[j])@ != id@,
            decreases self.candidates.len() - i,
        {
            if self.candidates[i] == id {
                assert(self.candidates.deep_view()[i as int] == id@);
                return ;
            }
            i += 1;
        }
        let ghost before = self.candidates.deep_view();
        assert(!before.contains(id@)) by {
            if before.contains(id@) {
                let j = choose|j: int| 0 <= j < before.len() && before[j] == id@;
                assert(self.candidates[j]@ == id@);
            }
        }
        self.candidates.push(id);
        assert(self.candidates.deep_view() == before.push(id@));
    }

    /// Deals with the line `line`, which holds no escape sequences.
    pub fn process_plain(&mut self, line: &str) -> (r: Result<LineStep, AnnotateError>)
        requires
            old(self)@.wf(),
        ensures
            final(self)@.wf(),
            (final(self)@, step_view(r)) == old(self)@.process(line@),
    {
        proof {
            reveal_strlit("\u{b7}");
            reveal_strlit("?");
            reveal_strlit("+");
        }
        let start: u64 = self.start as u64;
        let body = start <= self.offset && self.offset < self.end as u64;
        match classify_in(body, line) {
            LineKind::FileOld => {
                self.file = old_path(line);
                Ok(LineStep::Prefix(None))
            },
            LineKind::FileNew => Ok(LineStep::Prefix(None)),
            LineKind::Other => Ok(LineStep::Prefix(None)),
            LineKind::HunkHeader => {
                let end = self.parse_hunk(line)?;
                self.end = end;
                self.offset = self.start as u64;
                self.commits = Vec::new();
                self.maxlen = ABBREV;
                assert(self.commits.deep_view() == Seq::<Seq<char>>::empty());
                match &self.file {
                    Some(file) => Ok(
                        LineStep::Blame(
                            Query::Blame {
                                rev: self.base.rev().clone(),
                                abbrev: ABBREV - 1,
                                start: self.start,
                                end,
                                file: file.clone(),
                            },
                        ),
                    ),
                    None => Ok(LineStep::Prefix(None)),
                }
            },
            LineKind::Context | LineKind::Removed => {
                let found = self.lookup_commit();
                if self.offset < 0xffff_ffff_ffff_ffff {
                    self.offset = self.offset + 1;
                }
                match found {
                    Some(id) => {
                        if boundary(id.as_str()) {
                            Ok(LineStep::Prefix(Some(padded("\u{b7}", self.maxlen))))
                        } else {
                            let field = named_field(id.as_str());
                            self.note(id);
                            Ok(LineStep::Prefix(Some(field)))
                        }
                    },
                    None => Ok(LineStep::Prefix(Some(padded("?", self.maxlen)))),
                }
            },
            LineKind::Added => Ok(LineStep::Prefix(Some(padded("+", self.maxlen)))),
        }
    }

    /// Deals with the line `line` of the diff: takes out its escape sequences
    /// and goes by what is left.
    pub fn process_line(&mut self, line: &str) -> (r: Result<LineStep, AnnotateError>)
        requires
            old(self)@.wf(),
        ensures
            final(self)@.wf(),
            (final(self)@, step_view(r)) == old(self)@.process(ansi_stripped(line@)),
    {
        let plain = strip_ansi(line);
        self.process_plain(plain.as_str())
    }
}

} // verus!
