//! The queue between the two activities of a run around an inner filter.
//!
//! One activity reads the diff, offers the field of each line and hands the
//! line to the filter. The other takes the lines that come back from the
//! filter and writes each behind the field of the same rank. The queue holds
//! the fields that were offered and not yet taken, in the order in which they
//! were offered. It does not block: a line that finds no field is told to
//! wait, and is taken again when the other activity has moved.
use crate::render::{paired, render_line, rendered};
use crate::text::text_of;
use std::collections::VecDeque;
use vstd::prelude::*;
use vstd::string::*;

verus! {

/// The fields that wait for their lines.
pub struct Pairing {
    fields: VecDeque<Option<String>>,
    closed: bool,
}

/// The queue as plain values: the fields that wait, the first offered first,
/// and whether the offering activity has finished.
pub struct PairingView {
    pub fields: Seq<Option<Seq<char>>>,
    pub closed: bool,
}

/// What the queue says of a line that came back from the filter.
#[derive(Debug, PartialEq, Eq)]
pub enum Turn {
    /// The line had a field waiting: this is to be written for it.
    Write(String),
    /// No field waits yet, but more will be offered: the line is to be taken
    /// again later.
    Wait,
    /// No field waits and none will be offered: the filter gave back more
    /// lines than it was given.
    Starved,
}

/// What the queue says of a line, as plain values.
pub enum TurnView {
    Write(Seq<char>),
    Wait,
    Starved,
}

impl View for Turn {
    type V = TurnView;

    open spec fn view(&self) -> TurnView {
        match self {
            Turn::Write(text) => TurnView::Write(text@),
            Turn::Wait => TurnView::Wait,
            Turn::Starved => TurnView::Starved,
        }
    }
}

impl PairingView {
    /// The queue before anything is offered.
    pub open spec fn empty() -> PairingView {
        PairingView { fields: Seq::empty(), closed: false }
    }

    /// The queue with one more field at its end.
    pub open spec fn offer(self, prefix: Option<Seq<char>>) -> PairingView {
        PairingView { fields: self.fields.push(prefix), ..self }
    }

    /// The queue once the offering activity has finished.
    pub open spec fn close(self) -> PairingView {
        PairingView { closed: true, ..self }
    }

    /// The queue after the line `line` came back, and what it says of it: the
    /// line leaves with the field that has waited longest.
    pub open spec fn take(self, line: Seq<char>) -> (PairingView, TurnView) {
        if self.fields.len() > 0 {
            (
                PairingView { fields: self.fields.drop_first(), ..self },
                TurnView::Write(rendered(self.fields[0], line)),
            )
        } else if self.closed {
            (self, TurnView::Starved)
        } else {
            (self, TurnView::Wait)
        }
    }
}

/// A move of one of the two activities.
pub enum Move {
    /// The field of the next line of the diff is offered.
    Offer(Option<Seq<char>>),
    /// The diff has ended.
    Close,
    /// A line came back from the filter, or is taken again after a wait.
    Take(Seq<char>),
}

/// What a sequence of moves has come to.
pub struct Played {
    /// The queue.
    pub queue: PairingView,
    /// The fields offered so far.
    pub offered: Seq<Option<Seq<char>>>,
    /// The lines that left with a field.
    pub taken: Seq<Seq<char>>,
    /// What was written for them.
    pub written: Seq<Seq<char>>,
}

impl Played {
    /// The state after one more move.
    pub open spec fn after(self, m: Move) -> Played {
        match m {
            Move::Offer(prefix) => Played {
                queue: self.queue.offer(prefix),
                offered: self.offered.push(prefix),
                ..self
            },
            Move::Close => Played { queue: self.queue.close(), ..self },
            Move::Take(line) => match self.queue.take(line).1 {
                TurnView::Write(text) => Played {
                    queue: self.queue.take(line).0,
                    taken: self.taken.push(line),
                    written: self.written.push(text),
                    ..self
                },
                _ => self,
            },
        }
    }
}

/// What the moves `moves`, made in their order on an empty queue, come to.
pub open spec fn played(moves: Seq<Move>) -> Played
    decreases moves.len(),
{
    if moves.len() == 0 {
        Played {
            queue: PairingView::empty(),
            offered: Seq::empty(),
            taken: Seq::empty(),
            written: Seq::empty(),
        }
    } else {
        played(moves.drop_last()).after(moves.last())
    }
}

/// Fields and lines are paired in the order in which they came, however the
/// moves of the two activities fall among each other: the line of rank `i`
/// is written behind the field of rank `i`, no field is passed over, and the
/// fields that wait are those offered and not yet used.
pub proof fn lemma_played_in_order(moves: Seq<Move>)
    ensures
        played(moves).written.len() == played(moves).taken.len(),
        played(moves).taken.len() + played(moves).queue.fields.len() == played(
            moves,
        ).offered.len(),
        played(moves).queue.fields == played(moves).offered.skip(
            played(moves).taken.len() as int,
        ),
        forall|i: int|
            0 <= i < played(moves).written.len() ==> #[trigger] played(moves).written[i]
                == rendered(played(moves).offered[i], played(moves).taken[i]),
    decreases moves.len(),
{
    if moves.len() > 0 {
        let before = played(moves.drop_last());
        let after = played(moves);
        lemma_played_in_order(moves.drop_last());
        match moves.last() {
            Move::Offer(prefix) => {
                assert(after.queue.fields == after.offered.skip(after.taken.len() as int));
            },
            Move::Close => {},
            Move::Take(line) => {
                if before.queue.fields.len() > 0 {
                    assert(before.queue.fields[0] == before.offered[before.taken.len() as int]);
                    assert(after.queue.fields == after.offered.skip(after.taken.len() as int));
                }
            },
        }
    } else {
        assert(played(moves).queue.fields == played(moves).offered.skip(0));
    }
}

/// The texts `parts`, one behind the other.
pub open spec fn concat(parts: Seq<Seq<char>>) -> Seq<char>
    decreases parts.len(),
{
    if parts.len() == 0 {
        Seq::empty()
    } else {
        concat(parts.drop_last()) + parts.last()
    }
}

/// What is written line by line is, taken together, the text of the lines
/// behind their fields.
pub proof fn lemma_written_text(
    offered: Seq<Option<Seq<char>>>,
    taken: Seq<Seq<char>>,
    written: Seq<Seq<char>>,
)
    requires
        written.len() == taken.len() <= offered.len(),
        forall|i: int|
            0 <= i < written.len() ==> #[trigger] written[i] == rendered(offered[i], taken[i]),
    ensures
        concat(written) == text_of(paired(offered, taken)),
    decreases taken.len(),
{
    if taken.len() > 0 {
        let n = taken.len() - 1;
        assert forall|i: int| 0 <= i < n implies #[trigger] written.drop_last()[i] == rendered(
            offered[i],
            taken.drop_last()[i],
        ) by {
            assert(written.drop_last()[i] == written[i]);
        }
        lemma_written_text(offered, taken.drop_last(), written.drop_last());
        assert(paired(offered, taken).drop_last() == paired(offered, taken.drop_last()));
        assert(concat(written) == concat(written.drop_last()) + (paired(offered, taken).last()
            + seq!['\n']));
    } else {
        assert(paired(offered, taken) == Seq::<Seq<char>>::empty());
    }
}

/// Through the queue a run writes what it writes without one: whatever the
/// order of the moves, all that was written is the text of the lines taken,
/// each behind the field of its rank.
pub proof fn lemma_played_text(moves: Seq<Move>)
    ensures
        concat(played(moves).written) == text_of(
            paired(played(moves).offered, played(moves).taken),
        ),
{
    lemma_played_in_order(moves);
    lemma_written_text(played(moves).offered, played(moves).taken, played(moves).written);
}

impl View for Pairing {
    type V = PairingView;

    closed spec fn view(&self) -> PairingView {
        PairingView { fields: self.fields.deep_view(), closed: self.closed }
    }
}

impl Pairing {
    /// A queue with no field in it.
    pub fn new() -> (r: Pairing)
        ensures
            r@ == PairingView::empty(),
    {
        let fields: VecDeque<Option<String>> = VecDeque::new();
        assert(fields.deep_view() == Seq::<Option<Seq<char>>>::empty());
        Pairing { fields, closed: false }
    }

    /// Puts the field of the next line at the end of the queue.
    pub fn offer(&mut self, prefix: Option<String>)
        ensures
            final(self)@ == old(self)@.offer(prefix.deep_view()),
    {
        let ghost before = self.fields.deep_view();
        self.fields.push_back(prefix);
        assert(self.fields.deep_view() == before.push(prefix.deep_view()));
    }

    /// Notes that no further field will be offered.
    pub fn close(&mut self)
        ensures
            final(self)@ == old(self)@.close(),
    {
        self.closed = true;
    }

    /// How many fields wait.
    pub fn waiting(&self) -> (r: usize)
        ensures
            r == self@.fields.len(),
    {
        self.fields.len()
    }

    /// Takes the line `line` that came back from the filter.
    pub fn take(&mut self, line: &str) -> (r: Turn)
        ensures
            (final(self)@, r@) == old(self)@.take(line@),
    {
        let ghost before = self.fields.deep_view();
        match self.fields.pop_front() {
            Some(prefix) => {
                assert(self.fields.deep_view() == before.drop_first());
                assert(before[0] == prefix.deep_view());
                Turn::Write(render_line(&prefix, line))
            },
            None => {
                if self.closed {
                    Turn::Starved
                } else {
                    Turn::Wait
                }
            },
        }
    }
}

/// The text of the lines `lines` behind the fields `prefixes`, paired by the
/// queue: every field is offered, then every line is taken, until the lines
/// or the fields run out.
pub fn pair_in_turn(prefixes: &Vec<Option<String>>, lines: &Vec<String>) -> (r: String)
    ensures
        r@ == text_of(paired(prefixes.deep_view(), lines.deep_view())),
{
    let ghost fields = prefixes.deep_view();
    let ghost ls = lines.deep_view();
    let mut queue = Pairing::new();
    let mut i: usize = 0;
    assert(fields.take(0) == Seq::<Option<Seq<char>>>::empty());
    while i < prefixes.len()
        invariant
            0 <= i <= prefixes.len(),
            fields == prefixes.deep_view(),
            queue@ == (PairingView { fields: fields.take(i as int), closed: false }),
        decreases prefixes.len() - i,
    {
        let prefix: Option<String> = match &prefixes[i] {
            Some(p) => Some(p.clone()),
            None => None,
        };
        assert(prefix.deep_view() == fields[i as int]);
        queue.offer(prefix);
        assert(fields.take(i as int).push(fields[i as int]) == fields.take(i + 1));
        i += 1;
    }
    queue.close();
    assert(fields.take(prefixes.len() as int) == fields.skip(0));
    let mut r = String::new();
    let mut j: usize = 0;
    assert(paired(fields, ls.take(0)) == Seq::<Seq<char>>::empty());
    while j < lines.len()
        invariant
            0 <= j <= lines.len(),
            j <= fields.len(),
            fields == prefixes.deep_view(),
            ls == lines.deep_view(),
            queue@ == (PairingView { fields: fields.skip(j as int), closed: true }),
            r@ == text_of(paired(fields, ls.take(j as int))),
        ensures
            j <= lines.len(),
            j < lines.len() ==> j == fields.len(),
            r@ == text_of(paired(fields, ls.take(j as int))),
        decreases lines.len() - j,
    {
        match queue.take(lines[j].as_str()) {
            Turn::Write(text) => {
                proof {
                    let now = paired(fields, ls.take(j + 1));
                    assert(now.drop_last() == paired(fields, ls.take(j as int)));
                    assert(fields.skip(j as int)[0] == fields[j as int]);
                    assert(ls[j as int] == lines[j as int]@);
                    assert(fields.skip(j as int).drop_first() == fields.skip(j + 1));
                    assert(r@ + text@ == r@ + now.last() + seq!['\n']);
                }
                r.append(text.as_str());
                j += 1;
            },
            _ => {
                break ;
            },
        }
    }
    assert(paired(fields, ls.take(j as int)) == paired(fields, ls)) by {
        if j == lines.len() {
            assert(ls.take(j as int) == ls);
        }
    }
    r
}

} // verus!
