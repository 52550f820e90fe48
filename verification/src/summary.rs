//! The summary of the commits that the annotation named.
//!
//! The backend shows each commit on a line of its own that begins with the
//! commit's time in seconds. The summary holds those lines from the earliest
//! commit to the latest, without the time.
use crate::decimal::{parse_u64, parsed};
use crate::text::{
    chars_of, is_whitespace, lines, skip_space, skip_word, split_lines, split_whitespace, trim,
    trimmed, words,
};
use vstd::prelude::*;
use vstd::string::*;

verus! {

/// The time that `line` begins with: its first word read as a number of
/// seconds, and 0 where there is no such number.
pub open spec fn time_of(line: Seq<char>) -> nat {
    let w = words(line);
    if w.len() == 0 {
        0
    } else {
        match parsed(w[0], u64::MAX as nat) {
            Some(t) => t,
            None => 0,
        }
    }
}

/// Where the text of `line` begins behind its first word: behind the
/// whitespace in front of that word, the word, and the whitespace after it.
pub open spec fn legend_start(line: Seq<char>) -> int {
    skip_space(line, skip_word(line, skip_space(line, 0)))
}

/// What the summary shows of `line`: the line without its first word and the
/// whitespace around that word, the rest as it stands.
pub open spec fn legend(line: Seq<char>) -> Seq<char> {
    line.skip(legend_start(line))
}

/// The first position at or after `i` whose line is later than `t`, or `s.len()`.
pub open spec fn slot(s: Seq<Seq<char>>, t: nat, i: int) -> int
    decreases s.len() - i,
{
    if 0 <= i < s.len() && time_of(s[i]) <= t {
        slot(s, t, i + 1)
    } else {
        i
    }
}

/// `s` with `line` put in behind the lines that are not later than it.
pub open spec fn placed(s: Seq<Seq<char>>, line: Seq<char>) -> Seq<Seq<char>> {
    s.insert(slot(s, time_of(line), 0), line)
}

/// The lines `ls` from the earliest to the latest; lines of one time stay in
/// the order in which they came.
pub open spec fn by_time(ls: Seq<Seq<char>>) -> Seq<Seq<char>>
    decreases ls.len(),
{
    if ls.len() == 0 {
        Seq::empty()
    } else {
        placed(by_time(ls.drop_last()), ls.last())
    }
}

/// The summary for what the backend showed: its lines by time, each without
/// its time. Whitespace around what it showed is no part of it.
pub open spec fn summary(shown: Seq<char>) -> Seq<Seq<char>> {
    by_time(lines(trimmed(shown))).map_values(|line: Seq<char>| legend(line))
}

/// Whether no line of `s` is later than one that follows it.
pub open spec fn in_time_order(s: Seq<Seq<char>>) -> bool {
    forall|i: int, j: int| 0 <= i <= j < s.len() ==> time_of(s[i]) <= time_of(s[j])
}

/// The lines of `s` whose time is `t`.
pub open spec fn at_time(s: Seq<Seq<char>>, t: nat) -> Seq<Seq<char>> {
    s.filter(|line: Seq<char>| time_of(line) == t)
}

pub proof fn lemma_slot(s: Seq<Seq<char>>, t: nat, i: int)
    requires
        0 <= i <= s.len(),
    ensures
        i <= slot(s, t, i) <= s.len(),
        forall|j: int| i <= j < slot(s, t, i) ==> time_of(s[j]) <= t,
        slot(s, t, i) < s.len() ==> time_of(s[slot(s, t, i)]) > t,
    decreases s.len() - i,
{
    if i < s.len() && time_of(s[i]) <= t {
        lemma_slot(s, t, i + 1);
    }
}

/// Sorting by time keeps every line, and each as often as it came.
pub proof fn lemma_by_time_permutes(ls: Seq<Seq<char>>)
    ensures
        by_time(ls).len() == ls.len(),
        by_time(ls).to_multiset() == ls.to_multiset(),
    decreases ls.len(),
{
    broadcast use {vstd::seq_lib::to_multiset_insert, vstd::seq_lib::to_multiset_build};

    if ls.len() > 0 {
        let front = by_time(ls.drop_last());
        lemma_by_time_permutes(ls.drop_last());
        lemma_slot(front, time_of(ls.last()), 0);
        assert(ls.drop_last().push(ls.last()) == ls);
    } else {
        assert(by_time(ls) == ls);
    }
}

/// Sorting by time puts the lines in the order of their times.
pub proof fn lemma_by_time_ordered(ls: Seq<Seq<char>>)
    ensures
        in_time_order(by_time(ls)),
    decreases ls.len(),
{
    if ls.len() > 0 {
        let front = by_time(ls.drop_last());
        lemma_by_time_ordered(ls.drop_last());
        lemma_slot(front, time_of(ls.last()), 0);
    }
}

/// Sorting by time is stable: the lines of any one time come out in the order
/// in which they went in.
pub proof fn lemma_by_time_stable(ls: Seq<Seq<char>>, t: nat)
    ensures
        at_time(by_time(ls), t) == at_time(ls, t),
    decreases ls.len(),
{
    let same = |line: Seq<char>| time_of(line) == t;
    if ls.len() > 0 {
        let front = by_time(ls.drop_last());
        let last = ls.last();
        let p = slot(front, time_of(last), 0);
        lemma_by_time_stable(ls.drop_last(), t);
        lemma_by_time_ordered(ls.drop_last());
        lemma_slot(front, time_of(last), 0);
        let head = front.take(p);
        let tail = front.skip(p);
        assert(front == head + tail);
        assert(by_time(ls) == head + seq![last] + tail);
        Seq::filter_distributes_over_add(head, tail, same);
        Seq::filter_distributes_over_add(head + seq![last], tail, same);
        Seq::filter_distributes_over_add(head, seq![last], same);
        assert(seq![last] == Seq::<Seq<char>>::empty().push(last));
        Seq::<Seq<char>>::empty().lemma_filter_push(last, same);
        ls.drop_last().lemma_filter_push(last, same);
        assert(ls.drop_last().push(last) == ls);
        assert(Seq::<Seq<char>>::empty().filter(same) == Seq::<Seq<char>>::empty()) by {
            reveal(Seq::filter);
        }
        if time_of(last) == t {
            assert forall|i: int| 0 <= i < tail.len() implies !same(#[trigger] tail[i]) by {
                assert(tail[i] == front[p + i]);
            }
            tail.lemma_all_neg_filter_empty(same);
            assert(tail.filter(same) == Seq::<Seq<char>>::empty());
        }
    } else {
        assert(by_time(ls) == ls);
    }
}

/// The time that `line` begins with.
pub fn line_time(line: &str) -> (t: u64)
    ensures
        t == time_of(line@),
{
    let ws = split_whitespace(line);
    if ws.len() == 0 {
        return 0;
    }
    assert(ws.deep_view()[0] == ws[0]@);
    match parse_u64(ws[0].as_str()) {
        Some(t) => t,
        None => 0,
    }
}

/// What the summary shows of `line`.
pub fn line_legend(line: &str) -> (r: String)
    ensures
        r@ == legend(line@),
{
    let cs = chars_of(line);
    let n: usize = cs.len();
    let mut i: usize = 0;
    while i < n && is_whitespace(cs[i])
        invariant
            n == cs.len(),
            0 <= i <= n,
            skip_space(cs@, i as int) == skip_space(cs@, 0),
        decreases n - i,
    {
        i += 1;
    }
    let a: usize = i;
    while i < n && !is_whitespace(cs[i])
        invariant
            n == cs.len(),
            a <= i <= n,
            skip_word(cs@, i as int) == skip_word(cs@, a as int),
        decreases n - i,
    {
        i += 1;
    }
    let b: usize = i;
    while i < n && is_whitespace(cs[i])
        invariant
            n == cs.len(),
            b <= i <= n,
            skip_space(cs@, i as int) == skip_space(cs@, b as int),
        decreases n - i,
    {
        i += 1;
    }
    let rest = line.substring_char(i, n);
    assert(line@.subrange(i as int, n as int) == line@.skip(i as int));
    rest.to_owned()
}

/// The summary for what the backend showed.
pub fn candidate_summary(shown: &str) -> (r: Vec<String>)
    ensures
        r.deep_view() == summary(shown@),
{
    let ls = split_lines(trim(shown));
    let mut sorted: Vec<String> = Vec::new();
    let mut times: Vec<u64> = Vec::new();
    let mut i: usize = 0;
    assert(ls.deep_view().take(0) == Seq::<Seq<char>>::empty());
    while i < ls.len()
        invariant
            ls.deep_view() == lines(trimmed(shown@)),
            0 <= i <= ls.len(),
            sorted.deep_view() == by_time(ls.deep_view().take(i as int)),
            times.len() == sorted.len(),
            forall|j: int| 0 <= j < times.len() ==> #[trigger] times[j] == time_of(sorted[j]@),
        decreases ls.len() - i,
    {
        let t: u64 = line_time(ls[i].as_str());
        let ghost front = sorted.deep_view();
        let mut p: usize = 0;
        while p < times.len() && times[p] <= t
            invariant
                0 <= p <= times.len(),
                times.len() == sorted.len(),
                front == sorted.deep_view(),
                forall|j: int| 0 <= j < times.len() ==> #[trigger] times[j] == time_of(sorted[j]@),
                slot(front, t as nat, p as int) == slot(front, t as nat, 0),
            decreases times.len() - p,
        {
            assert(front[p as int] == sorted[p as int]@);
            p += 1;
        }
        proof {
            if p < times.len() {
                assert(front[p as int] == sorted[p as int]@);
            }
            let d = ls.deep_view();
            assert(d.take(i + 1).drop_last() == d.take(i as int));
            assert(d.take(i + 1).last() == ls[i as int]@);
        }
        sorted.insert(p, ls[i].clone());
        times.insert(p, t);
        assert(sorted.deep_view() == front.insert(p as int, ls[i as int]@));
        i += 1;
    }
    assert(ls.deep_view().take(ls.len() as int) == ls.deep_view());
    let mut r: Vec<String> = Vec::new();
    let mut k: usize = 0;
    while k < sorted.len()
        invariant
            0 <= k <= sorted.len(),
            r.len() == k,
            forall|j: int| 0 <= j < k ==> (#[trigger] r[j])@ == legend(sorted[j]@),
        decreases sorted.len() - k,
    {
        r.push(line_legend(sorted[k].as_str()));
        k += 1;
    }
    assert(r.deep_view() == sorted.deep_view().map_values(|line: Seq<char>| legend(line)));
    r
}

} // verus!
