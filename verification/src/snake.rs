//! The snake body: head, ordered segment chain, buffered turn requests,
//! and the per-tick move with tail-follow propagation and self-collision
//! detection.
//!
//! Segments are kept in body order, index 0 nearest the head and the
//! last index the tail. A move shifts the chain like a register: the
//! segment nearest the head takes the old head cell, every other
//! segment takes its forward neighbour's old cell, and the cell the
//! tail vacates is recorded as the growth-insertion point.

use vstd::prelude::*;
use crate::direction::{consume, consume_choice, consume_rest, Direction};
use crate::grid::{lemma_step_moves, Cell, Grid};

verus! {

/// The snake's full state.
pub struct Snake {
    /// The cell the head occupies.
    pub head: Cell,
    /// The direction the head moves on the next tick, absent a
    /// buffered turn.
    pub current_direction: Direction,
    /// Turn requests waiting to be consumed, front first.
    pub pending_turns: Vec<Direction>,
    /// Body cells in order, index 0 nearest the head, last the tail.
    /// The head cell itself is not among them.
    pub segments: Vec<Cell>,
    /// The cell the tail occupied before the most recent move; where
    /// growth inserts a new segment. Defaults to the origin before the
    /// first move.
    pub last_vacated: Cell,
}

/// The mathematical value of a snake.
#[verifier::ext_equal]
pub ghost struct SnakeModel {
    pub head: Cell,
    pub current_direction: Direction,
    pub pending_turns: Seq<Direction>,
    pub segments: Seq<Cell>,
    pub last_vacated: Cell,
}

impl View for Snake {
    type V = SnakeModel;

    open spec fn view(&self) -> SnakeModel {
        SnakeModel {
            head: self.head,
            current_direction: self.current_direction,
            pending_turns: self.pending_turns@,
            segments: self.segments@,
            last_vacated: self.last_vacated,
        }
    }
}

/// The state every round starts from and returns to on game over: one
/// segment at the fixed start cell, the head one cell further in the
/// initial direction Up, no buffered turns.
pub open spec fn initial_model() -> SnakeModel {
    SnakeModel {
        head: Cell { x: 3, y: 3 },
        current_direction: Direction::Up,
        pending_turns: Seq::empty(),
        segments: seq![Cell { x: 3, y: 2 }],
        last_vacated: Cell { x: 0, y: 0 },
    }
}

impl SnakeModel {
    /// Head and every segment lie within the grid.
    pub open spec fn in_bounds(self, grid: Grid) -> bool {
        &&& grid.contains_spec(self.head)
        &&& forall|i: int| 0 <= i < self.segments.len() ==> grid.contains_spec(self.segments[i])
    }

    /// Whether the snake's body (head included) covers a cell.
    pub open spec fn occupies(self, c: Cell) -> bool {
        c == self.head || self.segments.contains(c)
    }

    /// The direction the next move resolves to, after the buffer is
    /// consumed.
    pub open spec fn next_direction(self) -> Direction {
        consume_choice(self.pending_turns, self.current_direction)
    }

    /// The cell the head moves to on the next tick.
    pub open spec fn next_head(self, grid: Grid) -> Cell {
        grid.step_spec(self.head, self.next_direction())
    }

    /// Whether the next move runs the head into the body. The check
    /// walks the cells the chain is about to vacate — the old head and
    /// every segment but the tail — so the tail cell, which moves away
    /// this same tick, is exempt, and a snake with no segments never
    /// collides.
    pub open spec fn collides(self, grid: Grid) -> bool {
        let nh = self.next_head(grid);
        self.segments.len() >= 1 && (nh == self.head || self.segments.take(
            self.segments.len() - 1,
        ).contains(nh))
    }

    /// The snake after one move: direction resolved from the buffer,
    /// head stepped with wrap, segments shifted one place toward the
    /// head, the vacated tail cell recorded.
    pub open spec fn advanced(self, grid: Grid) -> SnakeModel {
        let dir = self.next_direction();
        SnakeModel {
            head: grid.step_spec(self.head, dir),
            current_direction: dir,
            pending_turns: consume_rest(self.pending_turns, self.current_direction),
            segments: if self.segments.len() == 0 {
                self.segments
            } else {
                seq![self.head].add(self.segments.drop_last())
            },
            last_vacated: if self.segments.len() == 0 {
                self.head
            } else {
                self.segments.last()
            },
        }
    }

    /// The snake after growing by `n` segments, each placed at the
    /// last vacated tail cell.
    pub open spec fn grown(self, n: nat) -> SnakeModel {
        SnakeModel {
            segments: self.segments.add(Seq::new(n, |i: int| self.last_vacated)),
            ..self
        }
    }

    /// The snake after this frame's key press, if any, joins the back
    /// of the turn queue.
    pub open spec fn with_enqueued(self, pick: Option<Direction>) -> SnakeModel {
        match pick {
            Some(d) => SnakeModel { pending_turns: self.pending_turns.push(d), ..self },
            None => self,
        }
    }
}

impl Snake {
    /// The snake a round starts with.
    pub fn initial() -> (s: Snake)
        ensures
            s@ == initial_model(),
    {
        let mut segments: Vec<Cell> = Vec::new();
        segments.push(Cell { x: 3, y: 2 });
        let s = Snake {
            head: Cell { x: 3, y: 3 },
            current_direction: Direction::Up,
            pending_turns: Vec::new(),
            segments,
            last_vacated: Cell { x: 0, y: 0 },
        };
        proof {
            assert(s@ =~= initial_model());
        }
        s
    }

    /// Append this frame's key press, if any, to the turn queue. The
    /// request waits there until a move tick consumes it.
    pub fn enqueue(&mut self, pick: Option<Direction>)
        ensures
            final(self)@ == old(self)@.with_enqueued(pick),
    {
        if let Some(d) = pick {
            self.pending_turns.push(d);
        }
        proof {
            assert(self@ =~= old(self)@.with_enqueued(pick));
        }
    }

    /// Run one move tick: resolve the direction from the buffer, step
    /// the head with wrap-around, shift every segment one place toward
    /// the head, record the vacated tail cell, and report whether the
    /// new head cell ran into the body.
    pub fn advance(&mut self, grid: &Grid) -> (collision: bool)
        requires
            grid.valid(),
            grid.contains_spec(old(self).head),
        ensures
            final(self)@ == old(self)@.advanced(*grid),
            collision == old(self)@.collides(*grid),
            final(self)@.segments.len() == old(self)@.segments.len(),
            grid.contains_spec(final(self).head),
    {
        let current = self.current_direction;
        let dir = consume(&mut self.pending_turns, current);
        self.current_direction = dir;
        let new_head = grid.step(self.head, dir);

        // Shift the chain: walk the body head-to-tail, carrying the
        // cell each segment is about to take. A carried cell equal to
        // the new head cell is a self-collision; the carried cell left
        // over at the end is the one the tail vacated.
        let ghost full = seq![old(self).head].add(old(self)@.segments);
        let mut new_segs: Vec<Cell> = Vec::new();
        let mut next_cell = self.head;
        let mut collision = false;
        let n = self.segments.len();
        let mut i: usize = 0;
        while i < n
            invariant
                i <= n,
                n == self.segments.len(),
                self.segments@ == old(self)@.segments,
                self.head == old(self).head,
                self.last_vacated == old(self).last_vacated,
                self.current_direction == dir,
                self.pending_turns@ == consume_rest(
                    old(self)@.pending_turns,
                    old(self)@.current_direction,
                ),
                dir == old(self)@.next_direction(),
                new_head == grid.step_spec(old(self).head, dir),
                full == seq![old(self).head].add(old(self)@.segments),
                full.len() == n + 1,
                new_segs@ == full.take(i as int),
                next_cell == full[i as int],
                collision == exists|j: int| 0 <= j < i && full[j] == new_head,
            decreases n - i,
        {
            if next_cell == new_head {
                collision = true;
            }
            new_segs.push(next_cell);
            next_cell = self.segments[i];
            proof {
                assert(new_segs@ =~= full.take(i + 1 as int));
            }
            i += 1;
        }
        self.segments = new_segs;
        self.last_vacated = next_cell;
        self.head = new_head;

        // Second line of defense: a head outside the grid would also
        // count as a collision. The wrap above makes this unreachable.
        if !grid.contains(self.head) {
            collision = true;
        }

        proof {
            let m = old(self)@;
            if m.segments.len() >= 1 {
                assert(self@.segments =~= seq![m.head].add(m.segments.drop_last()));
                assert(full[n as int] == m.segments.last());
            } else {
                assert(self@.segments =~= m.segments);
            }
            assert(self@ =~= m.advanced(*grid));
            // The carried-cell checks cover exactly the old head and
            // every segment but the tail.
            let nh = m.next_head(*grid);
            if collision {
                let j = choose|j: int| 0 <= j < n && full[j] == nh;
                if j > 0 {
                    assert(m.segments.take(m.segments.len() - 1)[j - 1] == nh);
                }
                assert(m.collides(*grid));
            }
            if m.collides(*grid) {
                if nh == m.head {
                    assert(full[0] == nh);
                } else {
                    let front = m.segments.take(m.segments.len() - 1);
                    let k = choose|k: int| 0 <= k < front.len() && front[k] == nh;
                    assert(full[k + 1] == nh);
                }
                assert(collision);
            }
        }
        collision
    }

    /// Append `n` segments, each at the last vacated tail cell: one
    /// per growth notification drained this frame.
    pub fn grow_by(&mut self, n: usize)
        ensures
            final(self)@ == old(self)@.grown(n as nat),
    {
        let mut k: usize = 0;
        while k < n
            invariant
                k <= n,
                self@ == old(self)@.grown(k as nat),
            decreases n - k,
        {
            self.segments.push(self.last_vacated);
            proof {
                assert(self@ =~= old(self)@.grown((k + 1) as nat));
            }
            k += 1;
        }
    }
}

/// Law: a move keeps the whole body on the grid — the new head by the
/// wrap invariant, and every shifted segment because it takes a cell
/// the body already occupied.
pub proof fn lemma_advanced_in_bounds(m: SnakeModel, grid: Grid)
    requires
        grid.valid(),
        m.in_bounds(grid),
    ensures
        m.advanced(grid).in_bounds(grid),
{
    let a = m.advanced(grid);
    if m.segments.len() >= 1 {
        assert forall|i: int| 0 <= i < a.segments.len() implies grid.contains_spec(
            a.segments[i],
        ) by {
            if i > 0 {
                assert(a.segments[i] == m.segments[i - 1]);
            }
        }
    }
}

/// Law (collision correctness): on a grid at least two cells wide and
/// tall, the move collides exactly when the computed new head cell
/// equals a current segment cell other than the tail — the cell about
/// to vacate into the spot behind the head is exempt — and a snake
/// with no segments never collides, whatever its direction.
pub proof fn lemma_collision_correctness(m: SnakeModel, grid: Grid)
    requires
        grid.width >= 2,
        grid.height >= 2,
        grid.contains_spec(m.head),
    ensures
        m.segments.len() == 0 ==> !m.collides(grid),
        m.collides(grid) <==> exists|i: int|
            0 <= i < m.segments.len() - 1 && m.segments[i] == m.next_head(grid),
{
    lemma_step_moves(grid, m.head, m.next_direction());
    let nh = m.next_head(grid);
    let front = m.segments.take(m.segments.len() - 1);
    if m.collides(grid) {
        let k = choose|k: int| 0 <= k < front.len() && front[k] == nh;
        assert(m.segments[k] == nh);
    }
    if exists|i: int| 0 <= i < m.segments.len() - 1 && m.segments[i] == nh {
        let i = choose|i: int| 0 <= i < m.segments.len() - 1 && m.segments[i] == nh;
        assert(front[i] == nh);
        assert(front.contains(nh));
    }
}

} // verus!
