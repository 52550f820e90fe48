//! Whole runs: a diff at hand, line by line, with the backend's blame listings
//! in the order in which the hunks ask for them.
use crate::annotate::{blame_ids, AnnotatorView, DiffAnnotator, LineStep, LineStepView};
use crate::ansi::ansi_stripped;
use crate::error::AnnotateError;
use crate::line::LineKind;
use crate::pairing::pair_in_turn;
use crate::query::QueryView;
use crate::render::{field, pair_lines, paired, unfielded};
use crate::revision::{
    added_mark, boundary_mark, display_width, is_boundary, lemma_display_width, named, padding,
    unknown_mark, ABBREV,
};
use crate::summary::{candidate_summary, summary};
use crate::text::{join_lines, text_of};
use vstd::prelude::*;
use vstd::string::*;

verus! {

/// A run so far: the engine, how many blame listings it has taken, the fields
/// of the lines dealt with, and the error that ended it, if one did.
pub struct RunView {
    pub state: AnnotatorView,
    pub used: nat,
    pub prefixes: Seq<Option<Seq<char>>>,
    pub error: Option<AnnotateError>,
}

impl RunView {
    /// The run after one more line. A run that failed stays as it is. A hunk
    /// header that asks for blame takes the next listing of `blames`; with
    /// none left the backend has failed. The line that fails gets no field.
    pub open spec fn feed(self, line: Seq<char>, blames: Seq<Seq<char>>) -> RunView {
        if self.error is Some {
            self
        } else {
            let (state, step) = self.state.process(ansi_stripped(line));
            match step {
                Err(e) => RunView { state, error: Some(e), ..self },
                Ok(LineStepView::Prefix(p)) => RunView {
                    state,
                    prefixes: self.prefixes.push(p),
                    ..self
                },
                Ok(LineStepView::Blame(_)) => if self.used < blames.len() {
                    let (state, installed) = state.install(blames[self.used as int]);
                    match installed {
                        Ok(()) => RunView {
                            state,
                            used: self.used + 1,
                            prefixes: self.prefixes.push(None),
                            ..self
                        },
                        Err(e) => RunView { state, used: self.used + 1, error: Some(e), ..self },
                    }
                } else {
                    RunView { state, error: Some(AnnotateError::Backend), ..self }
                },
            }
        }
    }
}

/// The run of the engine `s` over `lines`.
pub open spec fn run(s: AnnotatorView, lines: Seq<Seq<char>>, blames: Seq<Seq<char>>) -> RunView
    decreases lines.len(),
{
    if lines.len() == 0 {
        RunView { state: s, used: 0, prefixes: Seq::empty(), error: None }
    } else {
        run(s, lines.drop_last(), blames).feed(lines.last(), blames)
    }
}

/// The engine as the line of rank `i` finds it.
pub open spec fn state_at(
    s: AnnotatorView,
    lines: Seq<Seq<char>>,
    blames: Seq<Seq<char>>,
    i: int,
) -> AnnotatorView {
    run(s, lines.take(i), blames).state
}

/// What a run without inner filter has written when it ends: every line that
/// it dealt with behind its field. A run that fails has written the lines
/// before the one that failed.
pub open spec fn simple_written(
    s: AnnotatorView,
    lines: Seq<Seq<char>>,
    blames: Seq<Seq<char>>,
) -> Seq<char> {
    text_of(paired(run(s, lines, blames).prefixes, lines))
}

/// What a run around an inner filter has written when it ends, `filtered`
/// being what the filter made of `lines`: the filter's lines, each behind the
/// field of the line of the same rank, as far as fields were given.
pub open spec fn wrapping_written(
    s: AnnotatorView,
    lines: Seq<Seq<char>>,
    filtered: Seq<Seq<char>>,
    blames: Seq<Seq<char>>,
) -> Seq<char> {
    text_of(paired(run(s, lines, blames).prefixes, filtered))
}

/// The outcome of a run without inner filter: what it wrote, or its error.
pub open spec fn simple_output(
    s: AnnotatorView,
    lines: Seq<Seq<char>>,
    blames: Seq<Seq<char>>,
) -> Result<Seq<char>, AnnotateError> {
    match run(s, lines, blames).error {
        Some(e) => Err(e),
        None => Ok(simple_written(s, lines, blames)),
    }
}

/// The outcome of a run around an inner filter: what it wrote, or its error.
pub open spec fn wrapping_output(
    s: AnnotatorView,
    lines: Seq<Seq<char>>,
    filtered: Seq<Seq<char>>,
    blames: Seq<Seq<char>>,
) -> Result<Seq<char>, AnnotateError> {
    match run(s, lines, blames).error {
        Some(e) => Err(e),
        None => Ok(wrapping_written(s, lines, filtered, blames)),
    }
}

/// The annotated diff that a whole run has written when it ends.
pub open spec fn diff_written(
    s: AnnotatorView,
    lines: Seq<Seq<char>>,
    filtered: Seq<Seq<char>>,
    blames: Seq<Seq<char>>,
) -> Seq<char> {
    if s.inner is Some {
        wrapping_written(s, lines, filtered, blames)
    } else {
        simple_written(s, lines, blames)
    }
}

/// The summary that a whole run writes, or the error in its place. `shown` is
/// the backend's answer to the summary's query, `None` if it failed. A run
/// that named no commit, or has no format for it, asks nothing and writes no
/// summary.
pub open spec fn summary_output(
    s: AnnotatorView,
    lines: Seq<Seq<char>>,
    blames: Seq<Seq<char>>,
    shown: Option<Seq<char>>,
) -> Result<Seq<char>, AnnotateError> {
    let r = run(s, lines, blames);
    match r.error {
        Some(e) => Err(e),
        None => match (r.state.show_query(), shown) {
            (None, _) => Ok(Seq::empty()),
            (Some(_), Some(shown)) => Ok(text_of(summary(shown))),
            (Some(_), None) => Err(AnnotateError::Backend),
        },
    }
}

/// The outcome of a whole run: the annotated diff and the summary of its
/// commits, or the error that ended it.
pub open spec fn whole_output(
    s: AnnotatorView,
    lines: Seq<Seq<char>>,
    filtered: Seq<Seq<char>>,
    blames: Seq<Seq<char>>,
    shown: Option<Seq<char>>,
) -> Result<(Seq<char>, Seq<char>), AnnotateError> {
    match summary_output(s, lines, blames, shown) {
        Err(e) => Err(e),
        Ok(legend) => Ok((diff_written(s, lines, filtered, blames), legend)),
    }
}

/// Whether `p` is a field of marks: `mark`, `ABBREV` times or more, and a space.
pub open spec fn is_padding(p: Seq<char>, mark: char) -> bool {
    p.len() > ABBREV && p == padding(mark, (p.len() - 1) as nat)
}

/// Whether `p` is a field that names a commit: an identifier that is no
/// boundary, and a space.
pub open spec fn is_named(p: Seq<char>) -> bool {
    p.len() > 0 && p.last() == ' ' && !is_boundary(p.drop_last())
}

/// Whether `prefix` is a field that a line of kind `kind` can have: a commit's
/// name or boundary marks or unknown marks for a context or removed line,
/// added marks for an added line, and none for any other line.
pub open spec fn field_fits(kind: LineKind, prefix: Option<Seq<char>>) -> bool {
    match kind {
        LineKind::Context | LineKind::Removed => {
            &&& prefix matches Some(p)
            &&& (is_named(p) || is_padding(p, boundary_mark()) || is_padding(p, unknown_mark()))
        },
        LineKind::Added => prefix matches Some(p) && is_padding(p, added_mark()),
        _ => prefix is None,
    }
}

/// The field of the old line under the cursor of `s`: the name of its commit,
/// boundary marks where it is blamed on none, unknown marks where the hunk's
/// list does not reach it.
pub open spec fn cursor_field(s: AnnotatorView) -> Seq<char> {
    match s.lookup() {
        Some(id) => if is_boundary(id) {
            padding(boundary_mark(), s.width)
        } else {
            named(id)
        },
        None => padding(unknown_mark(), s.width),
    }
}

/// Whether the engine `s` would name, for the line `line`, a commit whose
/// identifier is shorter than the field is wide.
pub open spec fn names_short(s: AnnotatorView, line: Seq<char>) -> bool {
    &&& s.kind(line) == LineKind::Context || s.kind(line) == LineKind::Removed
    &&& s.lookup() matches Some(id)
    &&& !is_boundary(id)
    &&& id.len() != s.width
}

/// A line keeps the engine well-formed and leaves its configuration alone.
pub proof fn lemma_process_wf(s: AnnotatorView, line: Seq<char>)
    requires
        s.wf(),
    ensures
        s.process(line).0.wf(),
        s.process(line).0.inner == s.inner,
        s.process(line).0.format == s.format,
        s.process(line).0.base == s.base,
{
    let t = s.process(line).0;
    match s.kind(line) {
        LineKind::Context | LineKind::Removed => {
            match s.lookup() {
                Some(id) => {
                    if !is_boundary(id) && !s.candidates.contains(id) {
                        assert(t.candidates == s.candidates.push(id));
                        assert forall|i: int, j: int|
                            0 <= i < t.candidates.len() && 0 <= j < t.candidates.len() && i
                                != j implies t.candidates[i] != t.candidates[j] by {
                            if i < s.candidates.len() && j < s.candidates.len() {
                            } else if i < s.candidates.len() {
                                assert(s.candidates.contains(s.candidates[i]));
                            } else {
                                assert(s.candidates.contains(s.candidates[j]));
                            }
                        }
                    }
                },
                None => {},
            }
        },
        _ => {},
    }
}

/// A blame listing keeps the engine well-formed and leaves its configuration alone.
pub proof fn lemma_install_wf(s: AnnotatorView, listing: Seq<char>)
    requires
        s.wf(),
    ensures
        s.install(listing).0.wf(),
        s.install(listing).0.inner == s.inner,
        s.install(listing).0.format == s.format,
        s.install(listing).0.base == s.base,
        s.install(listing).0.candidates == s.candidates,
{
}

/// A context or removed line always gets a field, the field of the old line
/// under the cursor, and the cursor moves on by one line.
pub proof fn lemma_old_line_field(s: AnnotatorView, line: Seq<char>)
    requires
        s.wf(),
        s.kind(line) == LineKind::Context || s.kind(line) == LineKind::Removed,
    ensures
        s.process(line).1 == Ok::<LineStepView, AnnotateError>(
            LineStepView::Prefix(Some(cursor_field(s))),
        ),
        s.offset < u64::MAX ==> s.process(line).0.offset == s.offset + 1,
        s.process(line).0.file == s.file,
        s.process(line).0.commits == s.commits,
        s.process(line).0.width == s.width,
{
}

/// A boundary under the cursor is drawn as marks and leaves the candidates as
/// they were; a commit under the cursor is among the candidates afterwards.
pub proof fn lemma_old_line_candidates(s: AnnotatorView, line: Seq<char>)
    requires
        s.wf(),
        s.kind(line) == LineKind::Context || s.kind(line) == LineKind::Removed,
    ensures
        match s.lookup() {
            Some(id) => if is_boundary(id) {
                &&& s.process(line).0.candidates == s.candidates
                &&& s.process(line).1 == Ok::<LineStepView, AnnotateError>(
                    LineStepView::Prefix(Some(padding(boundary_mark(), s.width))),
                )
            } else {
                s.process(line).0.candidates.contains(id)
            },
            None => s.process(line).0.candidates == s.candidates,
        },
{
    match s.lookup() {
        Some(id) => {
            if !is_boundary(id) && !s.candidates.contains(id) {
                assert(s.candidates.push(id)[s.candidates.len() as int] == id);
            }
        },
        None => {},
    }
}

/// Inside a hunk that has old lines left, a line is taken by its first
/// character: one that begins with `-` is a removed line and one that begins
/// with a space a context line, whatever follows. It gets the field of the
/// old line under the cursor and leaves the file at hand alone. One that
/// begins with `+` is an added line.
pub proof fn lemma_body_line(s: AnnotatorView, line: Seq<char>)
    requires
        s.wf(),
        s.in_body(),
        line.len() > 0,
    ensures
        line[0] == '-' ==> s.kind(line) == LineKind::Removed,
        line[0] == ' ' ==> s.kind(line) == LineKind::Context,
        line[0] == '+' ==> s.kind(line) == LineKind::Added,
        line[0] == '-' || line[0] == ' ' ==> {
            &&& s.process(line).1 == Ok::<LineStepView, AnnotateError>(
                LineStepView::Prefix(Some(cursor_field(s))),
            )
            &&& s.process(line).0.offset == s.offset + 1
            &&& s.process(line).0.file == s.file
        },
        line[0] == '+' ==> {
            &&& s.process(line).1 == Ok::<LineStepView, AnnotateError>(
                LineStepView::Prefix(Some(padding(added_mark(), s.width))),
            )
            &&& s.process(line).0 == s
        },
{
}

/// The field of a line is one that its kind can have, and only a hunk header
/// asks for blame or fails.
pub proof fn lemma_process_field(s: AnnotatorView, line: Seq<char>)
    requires
        s.wf(),
    ensures
        match s.process(line).1 {
            Ok(LineStepView::Prefix(p)) => field_fits(s.kind(line), p),
            Ok(LineStepView::Blame(_)) => s.kind(line) == LineKind::HunkHeader,
            Err(_) => s.kind(line) == LineKind::HunkHeader,
        },
{
    lemma_display_width(s.commits);
    match s.lookup() {
        Some(id) => {
            assert(named(id).drop_last() == id);
        },
        None => {},
    }
}

/// Every field of marks is as wide as the hunk's field, and so is the name of
/// a commit unless its identifier is shorter. Only a hunk header and a blame
/// listing change that width.
pub proof fn lemma_process_width(s: AnnotatorView, line: Seq<char>)
    requires
        s.wf(),
        !names_short(s, line),
    ensures
        s.process(line).1 matches Ok(LineStepView::Prefix(Some(p))) ==> p.len() == s.width + 1,
        s.kind(line) != LineKind::HunkHeader ==> {
            &&& s.process(line).0.width == s.width
            &&& s.process(line).0.commits == s.commits
            &&& s.process(line).0.start == s.start
            &&& s.process(line).0.end == s.end
        },
{
}

/// A run goes from one well-formed engine to another, and leaves the
/// configuration alone. While it has not failed it has a field, or none, for
/// every line.
pub proof fn lemma_run_wf(s: AnnotatorView, lines: Seq<Seq<char>>, blames: Seq<Seq<char>>)
    requires
        s.wf(),
    ensures
        run(s, lines, blames).state.wf(),
        run(s, lines, blames).state.inner == s.inner,
        run(s, lines, blames).state.format == s.format,
        run(s, lines, blames).state.base == s.base,
        run(s, lines, blames).error is None ==> run(s, lines, blames).prefixes.len() == lines.len(),
    decreases lines.len(),
{
    if lines.len() > 0 {
        let before = run(s, lines.drop_last(), blames);
        lemma_run_wf(s, lines.drop_last(), blames);
        if before.error is None {
            let line = ansi_stripped(lines.last());
            lemma_process_wf(before.state, line);
            if before.used < blames.len() {
                lemma_install_wf(before.state.process(line).0, blames[before.used as int]);
            }
        }
    }
}

/// A run that has failed takes no further line.
pub proof fn lemma_run_failed(
    s: AnnotatorView,
    lines: Seq<Seq<char>>,
    blames: Seq<Seq<char>>,
    k: int,
)
    requires
        0 <= k <= lines.len(),
        run(s, lines.take(k), blames).error is Some,
    ensures
        run(s, lines, blames) == run(s, lines.take(k), blames),
    decreases lines.len(),
{
    if k < lines.len() {
        assert(lines.drop_last().take(k) == lines.take(k));
        lemma_run_failed(s, lines.drop_last(), blames, k);
    } else {
        assert(lines.take(k) == lines);
    }
}

/// A run ends on the first line that fails: it has a field, or none, for each
/// line before that one, and for no other. So what it has written is the text
/// of the lines before the one that failed, and nothing of that line or of
/// any later one.
pub proof fn lemma_run_stops(s: AnnotatorView, lines: Seq<Seq<char>>, blames: Seq<Seq<char>>)
    requires
        s.wf(),
    ensures
        run(s, lines, blames).prefixes.len() <= lines.len(),
        ({
            let r = run(s, lines, blames);
            let k = r.prefixes.len() as int;
            &&& run(s, lines.take(k), blames).error is None
            &&& run(s, lines.take(k), blames).prefixes == r.prefixes
            &&& simple_written(s, lines, blames) == simple_written(s, lines.take(k), blames)
            &&& r.error is None ==> k == lines.len()
            &&& r.error is Some ==> k < lines.len() && run(s, lines.take(k + 1), blames) == r
        }),
    decreases lines.len(),
{
    let r = run(s, lines, blames);
    let k = r.prefixes.len() as int;
    lemma_run_wf(s, lines, blames);
    if lines.len() > 0 {
        let front = lines.drop_last();
        let before = run(s, front, blames);
        lemma_run_wf(s, front, blames);
        lemma_run_stops(s, front, blames);
        if before.error is Some {
            assert(front.take(k) == lines.take(k));
            assert(front.take(k + 1) == lines.take(k + 1));
        } else if r.error is Some {
            assert(lines.take(k) == front);
            assert(lines.take(k + 1) == lines);
        } else {
            assert(lines.take(k) == lines);
        }
    } else {
        assert(lines.take(0) == lines);
    }
    assert(paired(r.prefixes, lines) == paired(r.prefixes, lines.take(k)));
}

/// In a run that does not fail, every context or removed line carries the
/// name of a commit, boundary marks or unknown marks; every added line
/// carries added marks; every other line carries nothing. Each line is taken
/// for what it is where the run stands. Behind its field each line stands as
/// it came.
pub proof fn lemma_run_fields(s: AnnotatorView, lines: Seq<Seq<char>>, blames: Seq<Seq<char>>)
    requires
        s.wf(),
        run(s, lines, blames).error is None,
    ensures
        run(s, lines, blames).prefixes.len() == lines.len(),
        paired(run(s, lines, blames).prefixes, lines).len() == lines.len(),
        forall|i: int|
            0 <= i < lines.len() ==> field_fits(
                state_at(s, lines, blames, i).kind(ansi_stripped(#[trigger] lines[i])),
                run(s, lines, blames).prefixes[i],
            ),
        forall|i: int|
            0 <= i < lines.len() ==> (#[trigger] paired(run(s, lines, blames).prefixes, lines)[i])
                == field(run(s, lines, blames).prefixes[i]) + lines[i],
    decreases lines.len(),
{
    lemma_run_wf(s, lines, blames);
    if lines.len() > 0 {
        let front = lines.drop_last();
        let before = run(s, front, blames);
        let after = run(s, lines, blames);
        lemma_run_wf(s, front, blames);
        lemma_run_fields(s, front, blames);
        lemma_process_field(before.state, ansi_stripped(lines.last()));
        assert forall|i: int| 0 <= i < lines.len() implies field_fits(
            state_at(s, lines, blames, i).kind(ansi_stripped(#[trigger] lines[i])),
            after.prefixes[i],
        ) by {
            if i < lines.len() - 1 {
                assert(lines[i] == front[i]);
                assert(lines.take(i) == front.take(i));
                assert(after.prefixes[i] == before.prefixes[i]);
            } else {
                assert(lines.take(i) == front);
            }
        }
    }
}

/// Annotation can be done again: with the fields taken off, the annotated
/// lines are the lines that came in, and a second run over them, with the same
/// blame listings, gives every line the field that it had.
pub proof fn lemma_run_again(s: AnnotatorView, lines: Seq<Seq<char>>, blames: Seq<Seq<char>>)
    requires
        s.wf(),
        run(s, lines, blames).error is None,
    ensures
        unfielded(run(s, lines, blames).prefixes, paired(run(s, lines, blames).prefixes, lines))
            == lines,
        run(
            s,
            unfielded(run(s, lines, blames).prefixes, paired(run(s, lines, blames).prefixes, lines)),
            blames,
        ) == run(s, lines, blames),
{
    lemma_run_fields(s, lines, blames);
    let prefixes = run(s, lines, blames).prefixes;
    let back = unfielded(prefixes, paired(prefixes, lines));
    assert forall|i: int| 0 <= i < lines.len() implies back[i] == lines[i] by {
        assert(paired(prefixes, lines)[i] == field(prefixes[i]) + lines[i]);
        assert((field(prefixes[i]) + lines[i]).skip(field(prefixes[i]).len() as int) == lines[i]);
    }
    assert(back == lines);
}

/// A filter that hands every line on as it came changes nothing: the run
/// writes what it writes without a filter.
pub proof fn lemma_identity_filter(
    s: AnnotatorView,
    lines: Seq<Seq<char>>,
    blames: Seq<Seq<char>>,
)
    ensures
        wrapping_written(s, lines, lines, blames) == simple_written(s, lines, blames),
        wrapping_output(s, lines, lines, blames) == simple_output(s, lines, blames),
{
}

/// Within a hunk every field has one width, that of the hunk's longest
/// identifier and `ABBREV` at least: over lines of which none is a hunk
/// header, and as long as no commit with a shorter identifier is named, each
/// field is as long as that width and its space.
pub proof fn lemma_hunk_width(s: AnnotatorView, body: Seq<Seq<char>>, blames: Seq<Seq<char>>)
    requires
        s.wf(),
        run(s, body, blames).error is None,
        forall|i: int|
            0 <= i < body.len() ==> state_at(s, body, blames, i).kind(
                ansi_stripped(#[trigger] body[i]),
            ) != LineKind::HunkHeader,
        forall|i: int|
            0 <= i < body.len() ==> !names_short(
                state_at(s, body, blames, i),
                ansi_stripped(#[trigger] body[i]),
            ),
    ensures
        s.width >= ABBREV,
        run(s, body, blames).state.width == s.width,
        run(s, body, blames).state.commits == s.commits,
        run(s, body, blames).state.start == s.start,
        run(s, body, blames).state.end == s.end,
        forall|i: int|
            0 <= i < body.len() ==> ((#[trigger] run(s, body, blames).prefixes[i]) matches Some(p)
                ==> p.len() == s.width + 1),
    decreases body.len(),
{
    lemma_display_width(s.commits);
    lemma_run_wf(s, body, blames);
    if body.len() > 0 {
        let front = body.drop_last();
        let before = run(s, front, blames);
        let after = run(s, body, blames);
        let line = ansi_stripped(body.last());
        lemma_run_wf(s, front, blames);
        assert(body.take(body.len() - 1) == front);
        assert forall|i: int| 0 <= i < front.len() implies !names_short(
            state_at(s, front, blames, i),
            ansi_stripped(#[trigger] front[i]),
        ) by {
            assert(front.take(i) == body.take(i));
            assert(front[i] == body[i]);
        }
        assert forall|i: int| 0 <= i < front.len() implies state_at(s, front, blames, i).kind(
            ansi_stripped(#[trigger] front[i]),
        ) != LineKind::HunkHeader by {
            assert(front.take(i) == body.take(i));
            assert(front[i] == body[i]);
        }
        lemma_hunk_width(s, front, blames);
        assert(state_at(s, body, blames, body.len() - 1).kind(
            ansi_stripped(body[body.len() - 1]),
        ) != LineKind::HunkHeader);
        assert(!names_short(state_at(s, body, blames, body.len() - 1), line));
        lemma_process_width(before.state, line);
        lemma_process_field(before.state, line);
        assert forall|i: int| 0 <= i < body.len() implies ((#[trigger] after.prefixes[i]) matches Some(
            p,
        ) ==> p.len() == s.width + 1) by {
            if i < body.len() - 1 {
                assert(after.prefixes[i] == before.prefixes[i]);
            }
        }
    }
}

/// No boundary becomes a candidate: whatever a run is fed, the commits that
/// its summary asks about are commits.
pub proof fn lemma_candidates_are_commits(
    s: AnnotatorView,
    lines: Seq<Seq<char>>,
    blames: Seq<Seq<char>>,
)
    requires
        s.wf(),
    ensures
        forall|i: int|
            0 <= i < run(s, lines, blames).state.candidates.len() ==> !is_boundary(
                #[trigger] run(s, lines, blames).state.candidates[i],
            ),
        run(s, lines, blames).state.candidates.no_duplicates(),
{
    lemma_run_wf(s, lines, blames);
}

/// Whether the identifiers `back` are the identifiers `ids` as a blame that
/// goes back to an ancestor gives them: each is the one of `ids`, or a
/// boundary in its place, and the field is as wide for both.
pub open spec fn ids_back(ids: Seq<Seq<char>>, back: Seq<Seq<char>>) -> bool {
    &&& ids.len() == back.len()
    &&& display_width(ids) == display_width(back)
    &&& forall|i: int| 0 <= i < ids.len() ==> back[i] == ids[i] || is_boundary(#[trigger] back[i])
}

/// Whether the engine `t` stands where the engine `s` stands, with the
/// identifiers of a blame that goes back to an ancestor.
pub open spec fn blames_back(s: AnnotatorView, t: AnnotatorView) -> bool {
    &&& s.file == t.file
    &&& s.start == t.start
    &&& s.end == t.end
    &&& s.offset == t.offset
    &&& s.width == t.width
    &&& ids_back(s.commits, t.commits)
}

/// Whether the listings `back` answer the same hunks as the listings
/// `listings`, by a blame that goes back to an ancestor.
pub open spec fn listings_back(listings: Seq<Seq<char>>, back: Seq<Seq<char>>) -> bool {
    &&& listings.len() == back.len()
    &&& forall|j: int|
        0 <= j < listings.len() ==> {
            &&& blame_ids(#[trigger] listings[j]) matches Some(ids)
            &&& blame_ids(back[j]) matches Some(older)
            &&& ids_back(ids, older)
        }
}

/// Whether the field `other` is the field `one` or boundary marks in its place.
pub open spec fn field_back(one: Option<Seq<char>>, other: Option<Seq<char>>) -> bool {
    ||| other == one
    ||| {
        &&& one is Some
        &&& other matches Some(p)
        &&& is_padding(p, boundary_mark())
    }
}

/// Blame that goes back to an ancestor changes one thing in what a line gets:
/// where the old line is blamed on a boundary, boundary marks stand for the
/// name. A line whose commit is the same in both gets the same field, and so
/// do added lines and all other lines.
pub proof fn lemma_back_to_line(s: AnnotatorView, t: AnnotatorView, line: Seq<char>)
    requires
        s.wf(),
        t.wf(),
        blames_back(s, t),
    ensures
        s.kind(line) == t.kind(line),
        blames_back(s.process(line).0, t.process(line).0),
        match (s.process(line).1, t.process(line).1) {
            (Ok(LineStepView::Prefix(one)), Ok(LineStepView::Prefix(other))) => {
                &&& field_back(one, other)
                &&& s.lookup() == t.lookup() ==> other == one
            },
            (Ok(LineStepView::Blame(q)), Ok(LineStepView::Blame(p))) => {
                &&& q matches QueryView::Blame { start, end, file, .. }
                &&& p matches QueryView::Blame { start: a, end: b, file: f, .. }
                &&& start == a && end == b && file == f
            },
            (Err(e), Err(d)) => e == d,
            _ => false,
        },
{
    lemma_display_width(t.commits);
    assert(display_width(Seq::<Seq<char>>::empty()) == display_width(Seq::<Seq<char>>::empty()));
    match s.lookup() {
        Some(id) => {
            let i = s.offset - s.start;
            assert(t.commits[i] == s.commits[i] || is_boundary(t.commits[i]));
        },
        None => {},
    }
}

/// Two runs over one diff, the second with the listings of a blame that goes
/// back to an ancestor, differ in this alone: lines that the ancestor's side
/// is blamed for carry boundary marks in the second. They end alike, and
/// every line whose commit is the same in both runs has the same field.
pub proof fn lemma_back_to_run(
    s: AnnotatorView,
    t: AnnotatorView,
    lines: Seq<Seq<char>>,
    listings: Seq<Seq<char>>,
    back: Seq<Seq<char>>,
)
    requires
        s.wf(),
        t.wf(),
        blames_back(s, t),
        listings_back(listings, back),
    ensures
        run(s, lines, listings).error == run(t, lines, back).error,
        run(s, lines, listings).used == run(t, lines, back).used,
        blames_back(run(s, lines, listings).state, run(t, lines, back).state),
        run(s, lines, listings).prefixes.len() == run(t, lines, back).prefixes.len(),
        forall|i: int|
            0 <= i < run(s, lines, listings).prefixes.len() ==> {
                &&& field_back(
                    run(s, lines, listings).prefixes[i],
                    #[trigger] run(t, lines, back).prefixes[i],
                )
                &&& state_at(s, lines, listings, i).lookup() == state_at(t, lines, back, i).lookup()
                    ==> run(t, lines, back).prefixes[i] == run(s, lines, listings).prefixes[i]
            },
    decreases lines.len(),
{
    if lines.len() > 0 {
        let front = lines.drop_last();
        let a = run(s, front, listings);
        let b = run(t, front, back);
        let a1 = run(s, lines, listings);
        let b1 = run(t, lines, back);
        let line = ansi_stripped(lines.last());
        lemma_back_to_run(s, t, front, listings, back);
        lemma_run_wf(s, front, listings);
        lemma_run_wf(t, front, back);
        lemma_run_stops(s, front, listings);
        lemma_run_stops(t, front, back);
        if a.error is None {
            lemma_back_to_line(a.state, b.state, line);
            if a.used < listings.len() {
                assert(blame_ids(listings[a.used as int]) is Some);
            }
        }
        assert forall|i: int| 0 <= i < a1.prefixes.len() implies {
            &&& field_back(a1.prefixes[i], #[trigger] b1.prefixes[i])
            &&& state_at(s, lines, listings, i).lookup() == state_at(t, lines, back, i).lookup()
                ==> b1.prefixes[i] == a1.prefixes[i]
        } by {
            if i < a.prefixes.len() {
                assert(front.take(i) == lines.take(i));
                assert(a1.prefixes[i] == a.prefixes[i]);
                assert(b1.prefixes[i] == b.prefixes[i]);
            } else {
                assert(lines.take(i) == front);
            }
        }
    }
}

impl DiffAnnotator {
    /// Runs the engine over `lines` and adds the field of each line to
    /// `prefixes`. `blames` holds the backend's blame listings in the order in
    /// which the hunks ask for them; a hunk that finds none left fails as the
    /// backend. On an error the fields of the lines before the failing one
    /// have been added.
    pub fn annotate_lines_into(
        &mut self,
        lines: &Vec<String>,
        blames: &Vec<String>,
        prefixes: &mut Vec<Option<String>>,
    ) -> (r: Result<(), AnnotateError>)
        requires
            old(self)@.wf(),
        ensures
            final(self)@.wf(),
            final(self)@ == run(old(self)@, lines.deep_view(), blames.deep_view()).state,
            final(prefixes).deep_view() == old(prefixes).deep_view() + run(
                old(self)@,
                lines.deep_view(),
                blames.deep_view(),
            ).prefixes,
            match r {
                Ok(()) => run(old(self)@, lines.deep_view(), blames.deep_view()).error is None,
                Err(e) => run(old(self)@, lines.deep_view(), blames.deep_view()).error == Some(e),
            },
    {
        let ghost s0 = self@;
        let ghost had = prefixes.deep_view();
        let ghost ls = lines.deep_view();
        let ghost bs = blames.deep_view();
        let mut used: usize = 0;
        let mut i: usize = 0;
        assert(ls.take(0) == Seq::<Seq<char>>::empty());
        assert(had + Seq::<Option<Seq<char>>>::empty() == had);
        while i < lines.len()
            invariant
                0 <= i <= lines.len(),
                s0 == old(self)@,
                had == old(prefixes).deep_view(),
                ls == lines.deep_view(),
                bs == blames.deep_view(),
                self@.wf(),
                used <= blames.len(),
                run(s0, ls.take(i as int), bs).state == self@,
                run(s0, ls.take(i as int), bs).used == used,
                run(s0, ls.take(i as int), bs).error is None,
                prefixes.deep_view() == had + run(s0, ls.take(i as int), bs).prefixes,
            decreases lines.len() - i,
        {
            let ghost before = run(s0, ls.take(i as int), bs);
            let ghost now = prefixes.deep_view();
            proof {
                assert(ls.take(i + 1).drop_last() == ls.take(i as int));
                assert(ls.take(i + 1).last() == lines[i as int]@);
                assert(run(s0, ls.take(i + 1), bs) == before.feed(lines[i as int]@, bs));
            }
            match self.process_line(lines[i].as_str()) {
                Err(e) => {
                    proof {
                        lemma_run_failed(s0, ls, bs, i + 1);
                    }
                    return Err(e);
                },
                Ok(LineStep::Prefix(p)) => {
                    prefixes.push(p);
                    assert(prefixes.deep_view() == now.push(p.deep_view()));
                    assert(now.push(p.deep_view()) == had + before.prefixes.push(p.deep_view()));
                },
                Ok(LineStep::Blame(_)) => {
                    if used >= blames.len() {
                        proof {
                            lemma_run_failed(s0, ls, bs, i + 1);
                        }
                        return Err(AnnotateError::Backend);
                    }
                    assert(bs[used as int] == blames[used as int]@);
                    let installed = self.blame_hunk(blames[used].as_str());
                    used += 1;
                    match installed {
                        Err(e) => {
                            proof {
                                lemma_run_failed(s0, ls, bs, i + 1);
                            }
                            return Err(e);
                        },
                        Ok(()) => {
                            prefixes.push(None);
                            assert(prefixes.deep_view() == now.push(None));
                            assert(now.push(None) == had + before.prefixes.push(None));
                        },
                    }
                },
            }
            i += 1;
        }
        assert(ls.take(lines.len() as int) == ls);
        Ok(())
    }

    /// Runs the engine over `lines` and returns the field of each line, or
    /// the error that ended the run.
    pub fn annotate_lines(&mut self, lines: &Vec<String>, blames: &Vec<String>) -> (r: Result<
        Vec<Option<String>>,
        AnnotateError,
    >)
        requires
            old(self)@.wf(),
        ensures
            final(self)@.wf(),
            final(self)@ == run(old(self)@, lines.deep_view(), blames.deep_view()).state,
            match r {
                Ok(prefixes) => {
                    &&& run(old(self)@, lines.deep_view(), blames.deep_view()).error is None
                    &&& prefixes.deep_view() == run(
                        old(self)@,
                        lines.deep_view(),
                        blames.deep_view(),
                    ).prefixes
                },
                Err(e) => run(old(self)@, lines.deep_view(), blames.deep_view()).error == Some(e),
            },
    {
        let mut prefixes: Vec<Option<String>> = Vec::new();
        let ghost none = prefixes.deep_view();
        assert(none == Seq::<Option<Seq<char>>>::empty());
        match self.annotate_lines_into(lines, blames, &mut prefixes) {
            Ok(()) => {
                assert(none + run(old(self)@, lines.deep_view(), blames.deep_view()).prefixes
                    == run(old(self)@, lines.deep_view(), blames.deep_view()).prefixes);
                Ok(prefixes)
            },
            Err(e) => Err(e),
        }
    }

    /// Annotates the diff `lines` without inner filter and writes it to the
    /// end of `writer`: every line behind its field. On an error the lines
    /// before the failing one have been written, and no other.
    pub fn simple_diff_into(
        &mut self,
        lines: &Vec<String>,
        blames: &Vec<String>,
        writer: &mut String,
    ) -> (r: Result<(), AnnotateError>)
        requires
            old(self)@.wf(),
        ensures
            final(self)@.wf(),
            final(self)@ == run(old(self)@, lines.deep_view(), blames.deep_view()).state,
            final(writer)@ == old(writer)@ + simple_written(
                old(self)@,
                lines.deep_view(),
                blames.deep_view(),
            ),
            match r {
                Ok(()) => run(old(self)@, lines.deep_view(), blames.deep_view()).error is None,
                Err(e) => run(old(self)@, lines.deep_view(), blames.deep_view()).error == Some(e),
            },
    {
        let mut prefixes: Vec<Option<String>> = Vec::new();
        let ghost none = prefixes.deep_view();
        assert(none == Seq::<Option<Seq<char>>>::empty());
        let r = self.annotate_lines_into(lines, blames, &mut prefixes);
        assert(none + run(old(self)@, lines.deep_view(), blames.deep_view()).prefixes == run(
            old(self)@,
            lines.deep_view(),
            blames.deep_view(),
        ).prefixes);
        let text = pair_lines(&prefixes, lines);
        writer.append(text.as_str());
        r
    }

    /// Annotates the diff `lines` without inner filter: the text of its lines,
    /// each behind its field, or the error that ended the run.
    pub fn simple_diff(&mut self, lines: &Vec<String>, blames: &Vec<String>) -> (r: Result<
        String,
        AnnotateError,
    >)
        requires
            old(self)@.wf(),
        ensures
            final(self)@.wf(),
            final(self)@ == run(old(self)@, lines.deep_view(), blames.deep_view()).state,
            match r {
                Ok(text) => simple_output(old(self)@, lines.deep_view(), blames.deep_view()) == Ok::<
                    Seq<char>,
                    AnnotateError,
                >(text@),
                Err(e) => simple_output(old(self)@, lines.deep_view(), blames.deep_view()) == Err::<
                    Seq<char>,
                    AnnotateError,
                >(e),
            },
    {
        let mut writer = String::new();
        let ghost written = simple_written(old(self)@, lines.deep_view(), blames.deep_view());
        assert(Seq::<char>::empty() + written == written);
        match self.simple_diff_into(lines, blames, &mut writer) {
            Ok(()) => Ok(writer),
            Err(e) => Err(e),
        }
    }

    /// Annotates the diff `lines` around an inner filter, `filtered` being the
    /// lines that the filter made of `lines`, and writes to the end of
    /// `writer` the filter's lines, each behind the field of the line of the
    /// same rank. On an error the lines that had a field before the failing
    /// line have been written.
    pub fn wrapping_diff_into(
        &mut self,
        lines: &Vec<String>,
        filtered: &Vec<String>,
        blames: &Vec<String>,
        writer: &mut String,
    ) -> (r: Result<(), AnnotateError>)
        requires
            old(self)@.wf(),
        ensures
            final(self)@.wf(),
            final(self)@ == run(old(self)@, lines.deep_view(), blames.deep_view()).state,
            final(writer)@ == old(writer)@ + wrapping_written(
                old(self)@,
                lines.deep_view(),
                filtered.deep_view(),
                blames.deep_view(),
            ),
            match r {
                Ok(()) => run(old(self)@, lines.deep_view(), blames.deep_view()).error is None,
                Err(e) => run(old(self)@, lines.deep_view(), blames.deep_view()).error == Some(e),
            },
    {
        let mut prefixes: Vec<Option<String>> = Vec::new();
        let ghost none = prefixes.deep_view();
        assert(none == Seq::<Option<Seq<char>>>::empty());
        let r = self.annotate_lines_into(lines, blames, &mut prefixes);
        assert(none + run(old(self)@, lines.deep_view(), blames.deep_view()).prefixes == run(
            old(self)@,
            lines.deep_view(),
            blames.deep_view(),
        ).prefixes);
        let text = pair_in_turn(&prefixes, filtered);
        writer.append(text.as_str());
        r
    }

    /// Annotates the diff `lines` around an inner filter: the text of the
    /// filter's lines, each behind the field of the line of the same rank, or
    /// the error that ended the run.
    pub fn wrapping_diff(
        &mut self,
        lines: &Vec<String>,
        filtered: &Vec<String>,
        blames: &Vec<String>,
    ) -> (r: Result<String, AnnotateError>)
        requires
            old(self)@.wf(),
        ensures
            final(self)@.wf(),
            final(self)@ == run(old(self)@, lines.deep_view(), blames.deep_view()).state,
            match r {
                Ok(text) => wrapping_output(
                    old(self)@,
                    lines.deep_view(),
                    filtered.deep_view(),
                    blames.deep_view(),
                ) == Ok::<Seq<char>, AnnotateError>(text@),
                Err(e) => wrapping_output(
                    old(self)@,
                    lines.deep_view(),
                    filtered.deep_view(),
                    blames.deep_view(),
                ) == Err::<Seq<char>, AnnotateError>(e),
            },
    {
        let mut writer = String::new();
        let ghost written = wrapping_written(
            old(self)@,
            lines.deep_view(),
            filtered.deep_view(),
            blames.deep_view(),
        );
        assert(Seq::<char>::empty() + written == written);
        match self.wrapping_diff_into(lines, filtered, blames, &mut writer) {
            Ok(()) => Ok(writer),
            Err(e) => Err(e),
        }
    }

    /// Annotates the diff `lines` onto the end of `writer` and sums up its
    /// commits onto the end of `cand_writer`. With an inner filter configured,
    /// `filtered` holds the lines that it made of `lines`. `shown` holds what
    /// the backend showed of the candidates, or nothing if it failed to; it is
    /// looked at only where a format is configured and a commit was named.
    /// On an error the annotated lines before it have been written, and no
    /// summary.
    pub fn annotate_diff_into(
        &mut self,
        lines: &Vec<String>,
        filtered: &Vec<String>,
        blames: &Vec<String>,
        shown: Option<&str>,
        writer: &mut String,
        cand_writer: &mut String,
    ) -> (r: Result<(), AnnotateError>)
        requires
            old(self)@.wf(),
        ensures
            final(self)@.wf(),
            final(self)@ == run(old(self)@, lines.deep_view(), blames.deep_view()).state,
            final(writer)@ == old(writer)@ + diff_written(
                old(self)@,
                lines.deep_view(),
                filtered.deep_view(),
                blames.deep_view(),
            ),
            match summary_output(
                old(self)@,
                lines.deep_view(),
                blames.deep_view(),
                shown.deep_view(),
            ) {
                Ok(legend) => r is Ok && final(cand_writer)@ == old(cand_writer)@ + legend,
                Err(e) => r == Err::<(), AnnotateError>(e) && final(cand_writer)@ == old(
                    cand_writer,
                )@,
            },
    {
        let ghost kept = cand_writer@;
        assert(kept + Seq::<char>::empty() == kept);
        if self.has_filter() {
            self.wrapping_diff_into(lines, filtered, blames, writer)?;
        } else {
            self.simple_diff_into(lines, blames, writer)?;
        }
        match (self.show_query(), shown) {
            (None, _) => Ok(()),
            (Some(_), Some(shown)) => {
                let legend = join_lines(&candidate_summary(shown));
                cand_writer.append(legend.as_str());
                Ok(())
            },
            (Some(_), None) => Err(AnnotateError::Backend),
        }
    }

    /// Annotates the diff `lines` and sums up its commits: the annotated diff
    /// and the summary, or the error that ended the run.
    pub fn annotate_diff(
        &mut self,
        lines: &Vec<String>,
        filtered: &Vec<String>,
        blames: &Vec<String>,
        shown: Option<&str>,
    ) -> (r: Result<(String, String), AnnotateError>)
        requires
            old(self)@.wf(),
        ensures
            final(self)@.wf(),
            final(self)@ == run(old(self)@, lines.deep_view(), blames.deep_view()).state,
            match r {
                Ok((diff, legend)) => whole_output(
                    old(self)@,
                    lines.deep_view(),
                    filtered.deep_view(),
                    blames.deep_view(),
                    shown.deep_view(),
                ) == Ok::<(Seq<char>, Seq<char>), AnnotateError>((diff@, legend@)),
                Err(e) => whole_output(
                    old(self)@,
                    lines.deep_view(),
                    filtered.deep_view(),
                    blames.deep_view(),
                    shown.deep_view(),
                ) == Err::<(Seq<char>, Seq<char>), AnnotateError>(e),
            },
    {
        let mut writer = String::new();
        let mut cand_writer = String::new();
        let ghost diff = diff_written(
            old(self)@,
            lines.deep_view(),
            filtered.deep_view(),
            blames.deep_view(),
        );
        assert(Seq::<char>::empty() + diff == diff);
        let r = self.annotate_diff_into(
            lines,
            filtered,
            blames,
            shown,
            &mut writer,
            &mut cand_writer,
        );
        match r {
            Ok(()) => {
                let ghost legend = summary_output(
                    old(self)@,
                    lines.deep_view(),
                    blames.deep_view(),
                    shown.deep_view(),
                ).unwrap();
                assert(Seq::<char>::empty() + legend == legend);
                Ok((writer, cand_writer))
            },
            Err(e) => Err(e),
        }
    }
}

} // verus!
