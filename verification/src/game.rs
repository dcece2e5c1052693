//! The per-frame pipeline tying the parts together: tick both timers,
//! ingest this frame's key press, move the snake when the move tick
//! fires, spawn food when the food tick fires, eat food under the new
//! head, grow one segment per food eaten, and reset the round after a
//! self-collision.
//!
//! Growth and game-over notifications are raised and fully drained
//! within the frame, in the fixed stage order above, so they are
//! modelled as direct effects of the stages that detect them.

use vstd::prelude::*;
use crate::config::ConfigError;
use crate::direction::{pick_spec, pick_direction, KeyPresses};
use crate::food::try_spawn;
use crate::grid::{Cell, Grid};
use crate::snake::{initial_model, Snake, SnakeModel};
use crate::timer::IntervalTimer;

verus! {

/// The food cells of `foods` that survive the head landing on `c`:
/// every food at that cell is consumed, order otherwise kept.
pub open spec fn without_cell(foods: Seq<Cell>, c: Cell) -> Seq<Cell>
    decreases foods.len(),
{
    if foods.len() == 0 {
        foods
    } else {
        let init = without_cell(foods.drop_last(), c);
        if foods.last() == c {
            init
        } else {
            init.push(foods.last())
        }
    }
}

/// How many foods sit at cell `c`: each one eaten raises its own
/// growth notification.
pub open spec fn count_cell(foods: Seq<Cell>, c: Cell) -> nat
    decreases foods.len(),
{
    if foods.len() == 0 {
        0
    } else {
        count_cell(foods.drop_last(), c) + (if foods.last() == c {
            1nat
        } else {
            0nat
        })
    }
}

/// Law: eating only removes — every surviving food was already there,
/// and none of them sits at the eaten cell.
pub proof fn lemma_without_cell_elem(foods: Seq<Cell>, c: Cell, x: Cell)
    requires
        without_cell(foods, c).contains(x),
    ensures
        foods.contains(x) && x != c,
    decreases foods.len(),
{
    let w = without_cell(foods, c);
    let init = without_cell(foods.drop_last(), c);
    let i = choose|i: int| 0 <= i < w.len() && w[i] == x;
    if i < init.len() {
        assert(init.contains(x));
        lemma_without_cell_elem(foods.drop_last(), c, x);
        let j = choose|j: int| 0 <= j < foods.drop_last().len() && foods.drop_last()[j] == x;
        assert(foods[j] == x);
    } else {
        assert(x == foods.last());
    }
}

/// Law: eating keeps the surviving foods pairwise distinct.
pub proof fn lemma_without_cell_no_duplicates(foods: Seq<Cell>, c: Cell)
    requires
        foods.no_duplicates(),
    ensures
        without_cell(foods, c).no_duplicates(),
    decreases foods.len(),
{
    if foods.len() > 0 {
        let dl = foods.drop_last();
        assert(dl.no_duplicates());
        lemma_without_cell_no_duplicates(dl, c);
        if foods.last() != c {
            let init = without_cell(dl, c);
            assert(!init.contains(foods.last())) by {
                if init.contains(foods.last()) {
                    lemma_without_cell_elem(dl, c, foods.last());
                    let j = choose|j: int| 0 <= j < dl.len() && dl[j] == foods.last();
                    assert(foods[j] == foods[foods.len() - 1]);
                }
            }
            let pushed = init.push(foods.last());
            assert forall|i: int, j: int|
                0 <= i < pushed.len() && 0 <= j < pushed.len() && i != j implies pushed[i]
                != pushed[j] by {
                if i < init.len() && j < init.len() {
                } else if j == init.len() {
                    assert(init.contains(pushed[i])) by {
                        assert(pushed[i] == init[i]);
                    }
                } else {
                    assert(init.contains(pushed[j])) by {
                        assert(pushed[j] == init[j]);
                    }
                }
            }
        }
    }
}

/// Append every cell of `src` to the back of `dst`, in order.
fn append_cells(dst: &mut Vec<Cell>, src: &Vec<Cell>)
    ensures
        final(dst)@ == old(dst)@.add(src@),
{
    let mut i: usize = 0;
    while i < src.len()
        invariant
            i <= src.len(),
            dst@ == old(dst)@.add(src@.take(i as int)),
        decreases src.len() - i,
    {
        dst.push(src[i]);
        proof {
            assert(dst@ =~= old(dst)@.add(src@.take(i as int + 1)));
        }
        i += 1;
    }
    proof {
        assert(dst@ =~= old(dst)@.add(src@));
    }
}

/// The foods after a spawn attempt: the spawned cell, if any, joins
/// the set.
pub open spec fn add_spawn(foods: Seq<Cell>, spawned: Option<Cell>) -> Seq<Cell> {
    match spawned {
        Some(c) => foods.push(c),
        None => foods,
    }
}

/// The whole simulation state threaded through the per-frame pipeline.
pub struct Game {
    /// The fixed playing field.
    pub grid: Grid,
    /// The snake.
    pub snake: Snake,
    /// The active food cells.
    pub foods: Vec<Cell>,
    /// Fires the move ticks.
    pub move_timer: IntervalTimer,
    /// Fires the food-spawn ticks.
    pub food_timer: IntervalTimer,
}

/// The mathematical value of the whole simulation state.
#[verifier::ext_equal]
pub ghost struct GameModel {
    pub grid: Grid,
    pub snake: SnakeModel,
    pub foods: Seq<Cell>,
    pub move_timer: IntervalTimer,
    pub food_timer: IntervalTimer,
}

impl View for Game {
    type V = GameModel;

    open spec fn view(&self) -> GameModel {
        GameModel {
            grid: self.grid,
            snake: self.snake@,
            foods: self.foods@,
            move_timer: self.move_timer,
            food_timer: self.food_timer,
        }
    }
}

/// The state a fresh game starts in: the initial snake, no food, both
/// timers at zero.
pub open spec fn initial_game_model(
    width: i32,
    height: i32,
    move_interval_ms: u64,
    food_interval_ms: u64,
) -> GameModel {
    GameModel {
        grid: Grid { width, height },
        snake: initial_model(),
        foods: Seq::empty(),
        move_timer: IntervalTimer { interval_ms: move_interval_ms, elapsed_ms: 0, fired: false },
        food_timer: IntervalTimer { interval_ms: food_interval_ms, elapsed_ms: 0, fired: false },
    }
}

impl GameModel {
    /// Every reachable state keeps the whole body and all food on the
    /// grid, keeps at least one segment, and runs on usable timers.
    /// The grid is big enough to hold the initial snake, so a reset is
    /// always possible.
    pub open spec fn wf(self) -> bool {
        &&& self.grid.width >= 4
        &&& self.grid.height >= 4
        &&& self.snake.in_bounds(self.grid)
        &&& self.snake.segments.len() >= 1
        &&& forall|i: int| 0 <= i < self.foods.len() ==> self.grid.contains_spec(self.foods[i])
        &&& forall|i: int| 0 <= i < self.foods.len() ==> self.foods[i] != self.snake.head
        &&& self.foods.no_duplicates()
        &&& self.move_timer.valid()
        &&& self.food_timer.valid()
    }

    /// The state after a game-over notification is handled: all
    /// segments, food and the head are gone, and the initial snake is
    /// respawned — an immediate, synchronous reset. Timers keep
    /// running.
    pub open spec fn reset_spec(self) -> GameModel {
        GameModel { snake: initial_model(), foods: Seq::empty(), ..self }
    }

    /// The state after one frame, given the frame's elapsed time, its
    /// key presses, and the outcome of the food-spawn stage (which is
    /// random, so it is a parameter here). The stages run in the fixed
    /// order: timers, input, move, food spawn, eating, growth,
    /// game-over reset.
    pub open spec fn after_frame(
        self,
        delta_ms: u64,
        presses: KeyPresses,
        spawned: Option<Cell>,
    ) -> GameModel {
        let mt = self.move_timer.ticked_spec(delta_ms);
        let ft = self.food_timer.ticked_spec(delta_ms);
        let s_in = self.snake.with_enqueued(pick_spec(presses));
        if !mt.fired {
            GameModel {
                snake: s_in,
                foods: add_spawn(self.foods, spawned),
                move_timer: mt,
                food_timer: ft,
                ..self
            }
        } else {
            let s_moved = s_in.advanced(self.grid);
            let foods_sp = add_spawn(self.foods, spawned);
            let ate = count_cell(foods_sp, s_moved.head);
            if s_in.collides(self.grid) {
                GameModel {
                    snake: initial_model(),
                    foods: Seq::empty(),
                    move_timer: mt,
                    food_timer: ft,
                    ..self
                }
            } else {
                GameModel {
                    snake: s_moved.grown(ate),
                    foods: without_cell(foods_sp, s_moved.head),
                    move_timer: mt,
                    food_timer: ft,
                    ..self
                }
            }
        }
    }
}

/// What one frame did: whether the move tick fired, how many foods the
/// head consumed, the cell food spawned at (if the food tick fired and
/// placement succeeded), and whether a self-collision ended the round.
#[derive(Copy, Clone, Debug)]
pub struct FrameReport {
    pub moved: bool,
    pub ate: usize,
    pub spawned: Option<Cell>,
    pub game_over: bool,
}

impl Game {
    /// Build a game, rejecting configurations the simulation cannot
    /// run on: a zero-sized grid, a grid too small to hold the initial
    /// snake, or a timer interval of zero.
    pub fn new(
        width: i32,
        height: i32,
        move_interval_ms: u64,
        food_interval_ms: u64,
    ) -> (r: Result<Game, ConfigError>)
        ensures
            r is Ok <==> (width >= 4 && height >= 4 && move_interval_ms >= 1
                && food_interval_ms >= 1),
            r matches Ok(g) ==> g@ == initial_game_model(
                width,
                height,
                move_interval_ms,
                food_interval_ms,
            ) && g@.wf(),
            r == Err::<Game, ConfigError>(ConfigError::ZeroSizedGrid) <==> (width < 1 || height
                < 1),
            r == Err::<Game, ConfigError>(ConfigError::GridTooSmall) <==> (width >= 1 && height
                >= 1 && (width < 4 || height < 4)),
            r == Err::<Game, ConfigError>(ConfigError::NonPositiveInterval) <==> (width >= 4
                && height >= 4 && (move_interval_ms == 0 || food_interval_ms == 0)),
    {
        if width < 1 || height < 1 {
            return Err(ConfigError::ZeroSizedGrid);
        }
        if width < 4 || height < 4 {
            return Err(ConfigError::GridTooSmall);
        }
        if move_interval_ms == 0 || food_interval_ms == 0 {
            return Err(ConfigError::NonPositiveInterval);
        }
        let g = Game {
            grid: Grid { width, height },
            snake: Snake::initial(),
            foods: Vec::new(),
            move_timer: IntervalTimer {
                interval_ms: move_interval_ms,
                elapsed_ms: 0,
                fired: false,
            },
            food_timer: IntervalTimer {
                interval_ms: food_interval_ms,
                elapsed_ms: 0,
                fired: false,
            },
        };
        proof {
            assert(g@ =~= initial_game_model(width, height, move_interval_ms, food_interval_ms));
        }
        Ok(g)
    }

    /// Every cell something sits on right now: the head, each segment,
    /// each food. Freshly spawned food must avoid them all.
    fn occupied_cells(&self) -> (v: Vec<Cell>)
        ensures
            v@ == seq![self.snake.head].add(self.snake.segments@).add(self.foods@),
    {
        let mut v: Vec<Cell> = Vec::new();
        v.push(self.snake.head);
        append_cells(&mut v, &self.snake.segments);
        append_cells(&mut v, &self.foods);
        proof {
            assert(v@ =~= seq![self.snake.head].add(self.snake.segments@).add(self.foods@));
        }
        v
    }

    /// Consume every food sitting under the head: each one is
    /// destroyed and raises one growth notification.
    fn eat(&mut self) -> (ate: usize)
        ensures
            final(self)@ == (GameModel {
                foods: without_cell(old(self)@.foods, old(self)@.snake.head),
                ..old(self)@
            }),
            ate == count_cell(old(self)@.foods, old(self)@.snake.head),
    {
        let head = self.snake.head;
        let mut kept: Vec<Cell> = Vec::new();
        let mut ate: usize = 0;
        let n = self.foods.len();
        let mut i: usize = 0;
        while i < n
            invariant
                i <= n,
                *self == *old(self),
                n == self.foods.len(),
                head == old(self).snake.head,
                kept@ == without_cell(self.foods@.take(i as int), head),
                ate as int == count_cell(self.foods@.take(i as int), head),
                ate <= i,
            decreases n - i,
        {
            let c = self.foods[i];
            proof {
                assert(self.foods@.take(i as int + 1).drop_last() =~= self.foods@.take(i as int));
                assert(self.foods@.take(i as int + 1).last() == self.foods@[i as int]);
            }
            if c == head {
                ate += 1;
            } else {
                kept.push(c);
            }
            i += 1;
        }
        proof {
            assert(self.foods@.take(n as int) =~= self.foods@);
        }
        self.foods = kept;
        proof {
            assert(self@ =~= (GameModel {
                foods: without_cell(old(self)@.foods, old(self)@.snake.head),
                ..old(self)@
            }));
        }
        ate
    }

    /// Handle a game-over notification: despawn all segments, food and
    /// the head, and respawn the initial snake, all within the frame.
    /// Handling a second notification in the same frame changes
    /// nothing further.
    pub fn reset(&mut self)
        ensures
            final(self)@ == old(self)@.reset_spec(),
    {
        self.snake = Snake::initial();
        self.foods = Vec::new();
        proof {
            assert(self@ =~= old(self)@.reset_spec());
        }
    }

    /// Run one frame of the pipeline: advance both timers by the
    /// frame's elapsed time, enqueue at most one newly pressed
    /// direction, and, on a fired move tick, move the snake, eat food
    /// under the new head, grow one segment per food eaten, and reset
    /// the round if the move collided. Food spawns between the move
    /// and the eating check when its own tick fires, avoiding every
    /// occupied cell.
    pub fn frame(&mut self, delta_ms: u64, presses: KeyPresses) -> (report: FrameReport)
        requires
            old(self)@.wf(),
        ensures
            final(self)@ == old(self)@.after_frame(delta_ms, presses, report.spawned),
            final(self)@.wf(),
            report.moved == old(self)@.move_timer.ticked_spec(delta_ms).fired,
            report.game_over == (report.moved && old(self)@.snake.with_enqueued(
                pick_spec(presses),
            ).collides(old(self)@.grid)),
            !old(self)@.food_timer.ticked_spec(delta_ms).fired ==> report.spawned is None,
            report.spawned matches Some(c) ==> ({
                let s_at_spawn = if report.moved {
                    old(self)@.snake.with_enqueued(pick_spec(presses)).advanced(old(self)@.grid)
                } else {
                    old(self)@.snake.with_enqueued(pick_spec(presses))
                };
                &&& old(self)@.grid.contains_spec(c)
                &&& !s_at_spawn.occupies(c)
                &&& !old(self)@.foods.contains(c)
            }),
            report.moved ==> report.ate == count_cell(
                add_spawn(old(self)@.foods, report.spawned),
                old(self)@.snake.with_enqueued(pick_spec(presses)).advanced(old(self)@.grid).head,
            ),
            !report.moved ==> report.ate == 0 && !report.game_over,
            report.game_over ==> final(self)@.snake.segments.len() == 1,
            !report.game_over ==> final(self)@.snake.segments.len() == old(
                self,
            )@.snake.segments.len() + report.ate,
    {
        self.move_timer.tick(delta_ms);
        self.food_timer.tick(delta_ms);
        self.snake.enqueue(pick_direction(&presses));

        let ghost g0 = old(self)@;
        let ghost s_in = g0.snake.with_enqueued(pick_spec(presses));

        let moved = self.move_timer.fired;
        let mut game_over = false;
        if moved {
            proof {
                assert(self.snake@ == s_in);
                assert(self.grid.contains_spec(self.snake.head));
            }
            game_over = self.snake.advance(&self.grid);
        }

        let mut spawned: Option<Cell> = None;
        if self.food_timer.fired {
            let occupied = self.occupied_cells();
            spawned = try_spawn(&self.grid, &occupied);
            if let Some(c) = spawned {
                self.foods.push(c);
            }
        }

        let mut ate: usize = 0;
        if moved {
            ate = self.eat();
            self.snake.grow_by(ate);
        }

        if game_over {
            self.reset();
        }

        proof {
            let mt = g0.move_timer.ticked_spec(delta_ms);
            let ft = g0.food_timer.ticked_spec(delta_ms);
            let foods_sp = add_spawn(g0.foods, spawned);
            // The spawned cell missed every occupied cell.
            if spawned is Some {
                let c = spawned->0;
                let s_at = if moved {
                    s_in.advanced(g0.grid)
                } else {
                    s_in
                };
                let occ = seq![s_at.head].add(s_at.segments).add(g0.foods);
                assert(!occ.contains(c));
                assert(c != s_at.head) by {
                    if c == s_at.head {
                        assert(occ[0] == c);
                    }
                }
                assert(!s_at.segments.contains(c)) by {
                    if s_at.segments.contains(c) {
                        let i = choose|i: int|
                            0 <= i < s_at.segments.len() && s_at.segments[i] == c;
                        assert(occ[1 + i] == c);
                    }
                }
                assert(!g0.foods.contains(c)) by {
                    if g0.foods.contains(c) {
                        let i = choose|i: int| 0 <= i < g0.foods.len() && g0.foods[i] == c;
                        assert(occ[1 + s_at.segments.len() + i] == c);
                    }
                }
            }
            // All foods, including any spawned one, lie on the grid.
            assert forall|i: int| 0 <= i < foods_sp.len() implies g0.grid.contains_spec(
                foods_sp[i],
            ) by {
                if i == g0.foods.len() {
                    assert(foods_sp[i] == spawned->0);
                }
            }
            // They stay pairwise distinct: a spawned cell avoided the
            // existing foods.
            assert forall|i: int, j: int|
                0 <= i < foods_sp.len() && 0 <= j < foods_sp.len() && i != j implies foods_sp[i]
                != foods_sp[j] by {
                if i == g0.foods.len() && foods_sp[i] == foods_sp[j] {
                    assert(g0.foods[j] == spawned->0);
                    assert(g0.foods.contains(spawned->0));
                } else if j == g0.foods.len() && foods_sp[i] == foods_sp[j] {
                    assert(g0.foods[i] == spawned->0);
                    assert(g0.foods.contains(spawned->0));
                }
            }
            if moved {
                let s_moved = s_in.advanced(g0.grid);
                crate::snake::lemma_advanced_in_bounds(s_in, g0.grid);
                let w = without_cell(foods_sp, s_moved.head);
                lemma_without_cell_no_duplicates(foods_sp, s_moved.head);
                assert forall|i: int| 0 <= i < w.len() implies g0.grid.contains_spec(w[i]) && w[i]
                    != s_moved.head by {
                    assert(w.contains(w[i]));
                    lemma_without_cell_elem(foods_sp, s_moved.head, w[i]);
                    let j = choose|j: int| 0 <= j < foods_sp.len() && foods_sp[j] == w[i];
                }
                if game_over {
                    assert(self@ =~= g0.after_frame(delta_ms, presses, spawned));
                } else {
                    assert(self@ =~= g0.after_frame(delta_ms, presses, spawned));
                    // Grown segments stay on the grid: each appended
                    // one sits at the vacated tail cell.
                    let sg = s_moved.grown(ate as nat);
                    assert forall|i: int| 0 <= i < sg.segments.len() implies g0.grid.contains_spec(
                        sg.segments[i],
                    ) by {
                        if i >= s_moved.segments.len() {
                            assert(sg.segments[i] == s_moved.last_vacated);
                            assert(s_moved.last_vacated == g0.snake.segments.last());
                        }
                    }
                }
            } else {
                assert(self@ =~= g0.after_frame(delta_ms, presses, spawned));
                assert(s_in.in_bounds(g0.grid));
                // Without a move the head stays put, so no food sits
                // under it: the old ones did not, and a spawned one
                // avoided it.
                assert forall|i: int| 0 <= i < foods_sp.len() implies foods_sp[i]
                    != s_in.head by {
                    if i == g0.foods.len() {
                        assert(foods_sp[i] == spawned->0);
                    }
                }
            }
        }

        FrameReport { moved, ate, spawned, game_over }
    }
}

/// Law (idempotent reset): handling two game-over notifications in the
/// same frame leaves the snake in the same valid initial state as one.
pub proof fn lemma_reset_idempotent(g: GameModel)
    ensures
        g.reset_spec().reset_spec() == g.reset_spec(),
{
    assert(g.reset_spec().reset_spec() =~= g.reset_spec());
}

} // verus!
