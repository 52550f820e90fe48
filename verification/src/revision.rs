//! Revision identifiers and the annotation field that is made of them.
use crate::text::chars_of;
use vstd::prelude::*;
use vstd::string::*;

verus! {

/// The least number of characters that an annotation field holds.
pub const ABBREV: usize = 6;

/// Whether `id` stands for no commit: a boundary of the blamed range, which the
/// backend marks with a leading `^`, or an identifier of zeros only.
pub open spec fn is_boundary(id: Seq<char>) -> bool {
    ||| id.len() > 0 && id[0] == '^'
    ||| forall|i: int| 0 <= i < id.len() ==> #[trigger] id[i] == '0'
}

/// The width of the annotation field for the identifiers `ids`: the length of
/// the longest of them, and `ABBREV` at least.
pub open spec fn display_width(ids: Seq<Seq<char>>) -> nat
    decreases ids.len(),
{
    if ids.len() == 0 {
        ABBREV as nat
    } else {
        let w = display_width(ids.drop_last());
        if ids.last().len() > w {
            ids.last().len()
        } else {
            w
        }
    }
}

/// `width` times the character `mark`, and a space.
pub open spec fn padding(mark: char, width: nat) -> Seq<char> {
    Seq::new(width, |i: int| mark) + seq![' ']
}

/// The text `unit`, `n` times over.
pub open spec fn repeated(unit: Seq<char>, n: nat) -> Seq<char>
    decreases n,
{
    if n == 0 {
        Seq::empty()
    } else {
        repeated(unit, (n - 1) as nat) + unit
    }
}

/// A text of one character, repeated, is that character as many times.
pub proof fn lemma_repeated_char(mark: char, n: nat)
    ensures
        repeated(seq![mark], n) == Seq::new(n, |i: int| mark),
    decreases n,
{
    if n > 0 {
        lemma_repeated_char(mark, (n - 1) as nat);
        assert(Seq::new((n - 1) as nat, |i: int| mark) + seq![mark] == Seq::new(n, |i: int| mark));
    } else {
        assert(repeated(seq![mark], 0) == Seq::new(0, |i: int| mark));
    }
}

/// The field for a line that a commit is known for: its identifier and a space.
pub open spec fn named(id: Seq<char>) -> Seq<char> {
    id + seq![' ']
}

/// The mark of a line whose last change lies outside the blamed range.
pub open spec fn boundary_mark() -> char {
    '\u{b7}'
}

/// The mark of a line for which no identifier is at hand.
pub open spec fn unknown_mark() -> char {
    '?'
}

/// The mark of a line that the diff adds.
pub open spec fn added_mark() -> char {
    '+'
}

/// The width is at least `ABBREV`, no identifier is longer than it, and it is
/// no larger than that requires.
pub proof fn lemma_display_width(ids: Seq<Seq<char>>)
    ensures
        display_width(ids) >= ABBREV,
        forall|i: int| 0 <= i < ids.len() ==> (#[trigger] ids[i]).len() <= display_width(ids),
        display_width(ids) == ABBREV || exists|i: int|
            0 <= i < ids.len() && (#[trigger] ids[i]).len() == display_width(ids),
    decreases ids.len(),
{
    if ids.len() > 0 {
        let front = ids.drop_last();
        lemma_display_width(front);
        assert forall|i: int| 0 <= i < ids.len() implies (#[trigger] ids[i]).len() <= display_width(
            ids,
        ) by {
            if i < ids.len() - 1 {
                assert(ids[i] == front[i]);
            }
        }
        if display_width(ids) != ABBREV {
            if ids.last().len() > display_width(front) {
                assert(ids[ids.len() - 1].len() == display_width(ids));
            } else {
                let i = choose|i: int|
                    0 <= i < front.len() && (#[trigger] front[i]).len() == display_width(front);
                assert(ids[i] == front[i]);
            }
        }
    }
}

/// Whether `id` stands for no commit.
pub fn boundary(id: &str) -> (r: bool)
    ensures
        r == is_boundary(id@),
{
    let cs = chars_of(id);
    let n: usize = cs.len();
    if n > 0 && cs[0] == '^' {
        return true;
    }
    let mut i: usize = 0;
    while i < n
        invariant
            cs@ == id@,
            n == cs.len(),
            0 <= i <= n,
            !(id@.len() > 0 && id@[0] == '^'),
            forall|j: int| 0 <= j < i ==> #[trigger] id@[j] == '0',
        decreases n - i,
    {
        if cs[i] != '0' {
            assert(id@[i as int] != '0');
            return false;
        }
        i += 1;
    }
    true
}

/// The width of the annotation field for `ids`.
pub fn width_of(ids: &Vec<String>) -> (r: usize)
    ensures
        r == display_width(ids.deep_view()),
{
    let mut w: usize = ABBREV;
    let mut i: usize = 0;
    while i < ids.len()
        invariant
            0 <= i <= ids.len(),
            w == display_width(ids.deep_view().take(i as int)),
        decreases ids.len() - i,
    {
        let len: usize = ids[i].as_str().unicode_len();
        proof {
            let d = ids.deep_view();
            assert(d.take(i + 1).drop_last() == d.take(i as int));
            assert(d.take(i + 1).last() == ids[i as int]@);
        }
        if len > w {
            w = len;
        }
        i += 1;
    }
    assert(ids.deep_view().take(ids.len() as int) == ids.deep_view());
    w
}

/// `width` times the text `mark`, and a space.
pub fn padded(mark: &str, width: usize) -> (r: String)
    ensures
        r@ == repeated(mark@, width as nat) + seq![' '],
        mark@.len() == 1 ==> r@ == padding(mark@[0], width as nat),
{
    let mut r = String::new();
    let mut i: usize = 0;
    while i < width
        invariant
            0 <= i <= width,
            r@ == repeated(mark@, i as nat),
        decreases width - i,
    {
        r.append(mark);
        i += 1;
    }
    proof {
        reveal_strlit(" ");
        assert(" "@ == seq![' ']);
        if mark@.len() == 1 {
            assert(mark@ == seq![mark@[0]]);
            lemma_repeated_char(mark@[0], width as nat);
        }
    }
    r.append(" ");
    r
}

/// The identifier `id` and a space.
pub fn named_field(id: &str) -> (r: String)
    ensures
        r@ == named(id@),
{
    proof {
        reveal_strlit(" ");
        assert(" "@ == seq![' ']);
    }
    id.to_owned().concat(" ")
}

} // verus!
