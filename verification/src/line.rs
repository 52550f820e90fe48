//! The lines of a unified diff, told apart by how they begin.
use crate::text::{chars_of, starts_with};
use vstd::prelude::*;
use vstd::string::*;

verus! {

/// What a line of a diff is.
#[derive(Clone, Copy, Debug, PartialEq, Eq, Structural)]
pub enum LineKind {
    /// `--- ` and the path of the old file.
    FileOld,
    /// `+++ ` and the path of the new file.
    FileNew,
    /// `@@ ` and the ranges of a hunk.
    HunkHeader,
    /// A line that both files hold: it begins with a space.
    Context,
    /// A line of the old file only: it begins with `-`.
    Removed,
    /// A line of the new file only: it begins with `+`.
    Added,
    /// Any other line.
    Other,
}

/// How the line that names the old file begins.
pub open spec fn old_marker() -> Seq<char> {
    seq!['-', '-', '-', ' ']
}

/// How the line that names the new file begins.
pub open spec fn new_marker() -> Seq<char> {
    seq!['+', '+', '+', ' ']
}

/// How a hunk header begins.
pub open spec fn hunk_marker() -> Seq<char> {
    seq!['@', '@', ' ']
}

/// The directory under which a diff names the files of its old side.
pub open spec fn old_side() -> Seq<char> {
    seq!['a', '/']
}

/// The kind of `line`. The three markers are looked for first, in the order
/// below; after them the first character alone decides, whatever follows it.
/// So a line of a file that reads `@@ x` is, behind the space that the diff
/// puts in front of it, a context line and no hunk header.
pub open spec fn kind_of(line: Seq<char>) -> LineKind {
    if old_marker().is_prefix_of(line) {
        LineKind::FileOld
    } else if new_marker().is_prefix_of(line) {
        LineKind::FileNew
    } else if hunk_marker().is_prefix_of(line) {
        LineKind::HunkHeader
    } else if line.len() > 0 && line[0] == ' ' {
        LineKind::Context
    } else if line.len() > 0 && line[0] == '-' {
        LineKind::Removed
    } else if line.len() > 0 && line[0] == '+' {
        LineKind::Added
    } else {
        LineKind::Other
    }
}

/// The kind of `line` by where it stands. Inside a hunk that has old lines
/// left, `body`, a line that begins with a space, `-` or `+` is a context,
/// removed or added line, whatever follows: there a removed line may read
/// `--- x` and is no marker. Any other line, and every line elsewhere, is told
/// by `kind_of`.
pub open spec fn kind_in(body: bool, line: Seq<char>) -> LineKind {
    if body && line.len() > 0 && line[0] == ' ' {
        LineKind::Context
    } else if body && line.len() > 0 && line[0] == '-' {
        LineKind::Removed
    } else if body && line.len() > 0 && line[0] == '+' {
        LineKind::Added
    } else {
        kind_of(line)
    }
}

/// The file that `line` names as the old one: for a line of kind `FileOld`,
/// its path below the old side's directory. A path elsewhere, such as the null
/// device of a file that the diff creates, names no file that could be blamed.
pub open spec fn old_file(line: Seq<char>) -> Option<Seq<char>> {
    let path = line.skip(old_marker().len() as int);
    if old_marker().is_prefix_of(line) && old_side().is_prefix_of(path) {
        Some(path.skip(old_side().len() as int))
    } else {
        None
    }
}

/// Tells what kind of line `line` is.
pub fn classify(line: &str) -> (k: LineKind)
    ensures
        k == kind_of(line@),
{
    proof {
        reveal_strlit("--- ");
        reveal_strlit("+++ ");
        reveal_strlit("@@ ");
        assert("--- "@ == old_marker());
        assert("+++ "@ == new_marker());
        assert("@@ "@ == hunk_marker());
    }
    let cs = chars_of(line);
    if starts_with(&cs, "--- ") {
        LineKind::FileOld
    } else if starts_with(&cs, "+++ ") {
        LineKind::FileNew
    } else if starts_with(&cs, "@@ ") {
        LineKind::HunkHeader
    } else if cs.len() > 0 && cs[0] == ' ' {
        LineKind::Context
    } else if cs.len() > 0 && cs[0] == '-' {
        LineKind::Removed
    } else if cs.len() > 0 && cs[0] == '+' {
        LineKind::Added
    } else {
        LineKind::Other
    }
}

/// Tells what kind of line `line` is, inside a hunk with old lines left
/// (`body`) or elsewhere.
pub fn classify_in(body: bool, line: &str) -> (k: LineKind)
    ensures
        k == kind_in(body, line@),
{
    if body {
        let cs = chars_of(line);
        if cs.len() > 0 && cs[0] == ' ' {
            return LineKind::Context;
        } else if cs.len() > 0 && cs[0] == '-' {
            return LineKind::Removed;
        } else if cs.len() > 0 && cs[0] == '+' {
            return LineKind::Added;
        }
    }
    classify(line)
}

/// The file that `line` names as the old one, if it can be blamed.
pub fn old_path(line: &str) -> (r: Option<String>)
    ensures
        r.deep_view() == old_file(line@),
{
    proof {
        reveal_strlit("--- ");
        reveal_strlit("a/");
        assert("--- "@ == old_marker());
        assert("a/"@ == old_side());
    }
    let all = chars_of(line);
    if !starts_with(&all, "--- ") {
        return None;
    }
    let path: &str = line.substring_char(4, all.len());
    let cs = chars_of(path);
    if starts_with(&cs, "a/") {
        Some(path.substring_char(2, cs.len()).to_owned())
    } else {
        None
    }
}

} // verus!
