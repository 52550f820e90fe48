//! Terminal escape sequences in the input.
use vstd::prelude::*;

verus! {

/// What is left of `line` when its terminal escape sequences are taken out:
/// the text that would show on a terminal without colours.
pub uninterp spec fn ansi_stripped(line: Seq<char>) -> Seq<char>;

/// Calls `strip_ansi_escapes::strip_str`, which runs `line` through a terminal
/// parser and keeps the characters that the parser would print. The result is
/// named, not described: it depends on `line` alone.
#[verifier::external_body]
pub(crate) fn strip_ansi(line: &str) -> (r: String)
    ensures
        r@ == ansi_stripped(line@),
{
    strip_ansi_escapes::strip_str(line)
}

} // verus!
