//! Movement directions, the reversal rule, and the buffer of pending
//! turn requests.
//!
//! Turn requests arrive one per key-press edge and are queued in order.
//! When a move tick fires, the queue is consumed front to back: entries
//! equal to the current direction or to its exact opposite are discarded
//! for good, and the first remaining entry becomes the new direction; if
//! none qualifies the direction is kept.

use vstd::prelude::*;

verus! {

/// One of the four movement directions on the grid.
#[derive(Copy, Clone, Debug, PartialEq, Eq, Structural)]
pub enum Direction {
    Left,
    Right,
    Up,
    Down,
}

impl Direction {
    /// The direction pointing the opposite way.
    pub open spec fn opposite_spec(self) -> Direction {
        match self {
            Direction::Left => Direction::Right,
            Direction::Right => Direction::Left,
            Direction::Up => Direction::Down,
            Direction::Down => Direction::Up,
        }
    }

    /// The direction pointing the opposite way (Up and Down swap,
    /// Left and Right swap).
    pub fn opposite(self) -> (r: Direction)
        ensures
            r == self.opposite_spec(),
    {
        match self {
            Direction::Left => Direction::Right,
            Direction::Right => Direction::Left,
            Direction::Up => Direction::Down,
            Direction::Down => Direction::Up,
        }
    }
}

impl Default for Direction {
    /// A snake starts out moving up.
    fn default() -> (r: Self)
        ensures
            r == Direction::Up,
    {
        Direction::Up
    }
}

/// A turn request is honoured only when it is neither the current
/// direction nor its exact opposite (an instant reversal).
pub open spec fn valid_turn(d: Direction, current: Direction) -> bool {
    d != current && d != current.opposite_spec()
}

/// The direction that consuming the queue front to back settles on:
/// the first entry that is a valid turn, or `current` when none is.
pub open spec fn consume_choice(pending: Seq<Direction>, current: Direction) -> Direction
    decreases pending.len(),
{
    if pending.len() == 0 {
        current
    } else if valid_turn(pending[0], current) {
        pending[0]
    } else {
        consume_choice(pending.drop_first(), current)
    }
}

/// What is left of the queue after consuming: everything up to and
/// including the first valid turn is popped; invalid entries are
/// dropped permanently, never deferred.
pub open spec fn consume_rest(pending: Seq<Direction>, current: Direction) -> Seq<Direction>
    decreases pending.len(),
{
    if pending.len() == 0 {
        pending
    } else if valid_turn(pending[0], current) {
        pending.drop_first()
    } else {
        consume_rest(pending.drop_first(), current)
    }
}

/// Pop the queue front to back, discarding entries equal to `current`
/// or to its opposite, until a valid turn is found; return it, or
/// `current` when the queue runs out first.
pub fn consume(pending: &mut Vec<Direction>, current: Direction) -> (r: Direction)
    ensures
        r == consume_choice(old(pending)@, current),
        final(pending)@ == consume_rest(old(pending)@, current),
{
    loop
        invariant
            consume_choice(pending@, current) == consume_choice(old(pending)@, current),
            consume_rest(pending@, current) == consume_rest(old(pending)@, current),
        decreases pending@.len(),
    {
        if pending.len() == 0 {
            return current;
        }
        let d = pending.remove(0);
        if d != current && d != current.opposite() {
            return d;
        }
    }
}

/// The direction keys newly pressed this frame (edges, not held keys).
#[derive(Copy, Clone, Debug, PartialEq, Eq, Structural)]
pub struct KeyPresses {
    pub left: bool,
    pub right: bool,
    pub down: bool,
    pub up: bool,
}

/// The single direction enqueued for a frame's presses: the first
/// pressed key in the priority order Left, Right, Down, Up.
pub open spec fn pick_spec(k: KeyPresses) -> Option<Direction> {
    if k.left {
        Some(Direction::Left)
    } else if k.right {
        Some(Direction::Right)
    } else if k.down {
        Some(Direction::Down)
    } else if k.up {
        Some(Direction::Up)
    } else {
        None
    }
}

/// Resolve simultaneous presses to at most one direction per frame,
/// first match winning in the order Left, Right, Down, Up.
pub fn pick_direction(k: &KeyPresses) -> (r: Option<Direction>)
    ensures
        r == pick_spec(*k),
{
    if k.left {
        Some(Direction::Left)
    } else if k.right {
        Some(Direction::Right)
    } else if k.down {
        Some(Direction::Down)
    } else if k.up {
        Some(Direction::Up)
    } else {
        None
    }
}

/// Law: a queue holding no valid turn leaves the direction unchanged,
/// and every one of its entries is discarded.
pub proof fn lemma_consume_all_invalid(pending: Seq<Direction>, current: Direction)
    requires
        forall|i: int| 0 <= i < pending.len() ==> !valid_turn(pending[i], current),
    ensures
        consume_choice(pending, current) == current,
        consume_rest(pending, current) == Seq::<Direction>::empty(),
    decreases pending.len(),
{
    if pending.len() == 0 {
        assert(consume_rest(pending, current) =~= Seq::<Direction>::empty());
    } else {
        assert(forall|i: int|
            0 <= i < pending.drop_first().len() ==> !valid_turn(
                #[trigger] pending.drop_first()[i],
                current,
            ));
        lemma_consume_all_invalid(pending.drop_first(), current);
    }
}

/// Law: appending a valid turn behind a queue of discarded entries
/// makes that turn the one found, on the same consuming call.
pub proof fn lemma_consume_finds_valid(pending: Seq<Direction>, current: Direction, d: Direction)
    requires
        forall|i: int| 0 <= i < pending.len() ==> !valid_turn(pending[i], current),
        valid_turn(d, current),
    ensures
        consume_choice(pending.push(d), current) == d,
        consume_rest(pending.push(d), current) == Seq::<Direction>::empty(),
    decreases pending.len(),
{
    if pending.len() == 0 {
        assert(pending.push(d)[0] == d);
        assert(consume_rest(pending.push(d), current) =~= Seq::<Direction>::empty());
    } else {
        assert(pending.push(d).drop_first() =~= pending.drop_first().push(d));
        assert(forall|i: int|
            0 <= i < pending.drop_first().len() ==> !valid_turn(
                #[trigger] pending.drop_first()[i],
                current,
            ));
        lemma_consume_finds_valid(pending.drop_first(), current, d);
    }
}

/// Law (reversal filter): enqueueing the exact opposite of the current
/// direction onto a queue holding no valid turn, then consuming, leaves
/// the direction unchanged and discards that entry for good; a valid
/// turn enqueued after it is still found on the same call.
pub proof fn lemma_reversal_filter(pending: Seq<Direction>, current: Direction)
    requires
        forall|i: int| 0 <= i < pending.len() ==> !valid_turn(pending[i], current),
    ensures
        consume_choice(pending.push(current.opposite_spec()), current) == current,
        consume_rest(pending.push(current.opposite_spec()), current)
            == Seq::<Direction>::empty(),
        forall|d: Direction|
            valid_turn(d, current) ==> consume_choice(
                pending.push(current.opposite_spec()).push(d),
                current,
            ) == d,
{
    let p = pending.push(current.opposite_spec());
    assert(forall|i: int| 0 <= i < p.len() ==> !valid_turn(#[trigger] p[i], current)) by {
        assert(forall|i: int| 0 <= i < pending.len() ==> p[i] == pending[i]);
        assert(p[pending.len() as int] == current.opposite_spec());
    }
    lemma_consume_all_invalid(p, current);
    assert forall|d: Direction| valid_turn(d, current) implies consume_choice(
        p.push(d),
        current,
    ) == d by {
        lemma_consume_finds_valid(p, current, d);
    }
}

} // verus!
