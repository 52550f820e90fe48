//! Hunk headers of a unified diff: `@@ -<start>,<count> +<start>,<count> @@`.
use crate::decimal::{parse_u32, parsed};
use crate::text::{chars_of, find, find_char, lemma_words, split_whitespace, words};
use vstd::prelude::*;
use vstd::string::*;

verus! {

/// The old-file range of the hunk header `line`: its first line and the line
/// after its last one.
///
/// The range is the second word of the line: `-`, the first line, a comma and
/// the number of lines, and nothing else. Both numbers and their sum fit in
/// 32 bits. A header that lacks any of this has no range.
pub open spec fn old_range(line: Seq<char>) -> Option<(nat, nat)> {
    let w = words(line);
    if w.len() < 2 || w[1][0] != '-' {
        None
    } else {
        let body = w[1].drop_first();
        let comma = find_char(body, ',', 0);
        if comma >= body.len() {
            None
        } else {
            match (
                parsed(body.subrange(0, comma), u32::MAX as nat),
                parsed(body.subrange(comma + 1, body.len() as int), u32::MAX as nat),
            ) {
                (Some(start), Some(count)) => if start + count <= u32::MAX {
                    Some((start, start + count))
                } else {
                    None
                },
                _ => None,
            }
        }
    }
}

/// Reads the old-file range of a hunk header.
pub fn parse_old_range(line: &str) -> (r: Option<(u32, u32)>)
    ensures
        match r {
            Some((start, end)) => old_range(line@) == Some((start as nat, end as nat)),
            None => old_range(line@) is None,
        },
{
    let w = split_whitespace(line);
    if w.len() < 2 {
        return None;
    }
    assert(w.deep_view()[1] == w[1]@);
    let token: &str = w[1].as_str();
    let tcs = chars_of(token);
    proof {
        lemma_words(line@, 0);
    }
    if tcs[0] != '-' {
        return None;
    }
    let body: &str = token.substring_char(1, tcs.len());
    assert(body@ == token@.drop_first());
    let cs = chars_of(body);
    let n: usize = cs.len();
    let comma: usize = find(&cs, ',', 0);
    if comma >= n {
        return None;
    }
    let start = parse_u32(body.substring_char(0, comma));
    let count = parse_u32(body.substring_char(comma + 1, n));
    match (start, count) {
        (Some(start), Some(count)) => {
            if count <= 0xffff_ffff - start {
                Some((start, start + count))
            } else {
                None
            }
        },
        _ => None,
    }
}

} // verus!
