use vstd::prelude::*;

use crate::actor::{
    boost_decay, boost_enter, toggle_glyph, step_x, step_y, Boost, Character, FRUIT_MARK,
};
use crate::board::{
    grid_budget, lemma_grid_budget_le, lemma_grid_budget_nonneg, lemma_grid_budget_update,
    lemma_row_budget_le, lemma_row_budget_update, Board, GameError, MAX_DIM,
};
use crate::cell::{cell_points, glyph, spec_glyph, Cell, Direction};

verus! {

/// Score at which the single special fruit appears mid-board.
pub const FRUIT_MILESTONE: u64 = 70;

/// Movement ticks granted by the "speed" cheat.
pub const CHEAT_BOOST_TICKS: i32 = 1000;

/// Number of power-ups seeded onto a freshly generated board.
pub const POWERUP_SEED_COUNT: usize = 3;

/// Input already decoded to the engine's vocabulary: a quit request, a
/// change of facing, one buffered cheat character, or the trigger that
/// executes the buffer.
#[derive(Clone, Copy, Debug, PartialEq, Eq, Structural)]
pub enum InputEvent {
    Quit,
    Turn(Direction),
    CheatChar(char),
    CheatExec,
}

/// The one cheat command the engine recognizes.
pub open spec fn speed_cheat_word() -> Seq<char> {
    seq!['s', 'p', 'e', 'e', 'd']
}

/// Extreme boost granted by the speed cheat: the actor moves on every
/// tick, with at least `CHEAT_BOOST_TICKS` on the clock and never
/// fewer than already remained.
pub open spec fn extreme_boost(b: Boost) -> Boost {
    Boost {
        active: true,
        base: b.base,
        eff: 0,
        ticks: if CHEAT_BOOST_TICKS as int >= b.ticks {
            CHEAT_BOOST_TICKS as int
        } else {
            b.ticks
        },
    }
}

/// A rectangular obstacle footprint. The converged movement rules are
/// a torus, so no wall takes part in them; the shape is kept for a
/// bounded-board variant.
pub struct Wall {
    pub x: usize,
    pub y: usize,
    pub height: usize,
    pub width: usize,
}

/// The whole game session: board, actor, score, cheat buffer and the
/// cooperative exit flag.
pub struct App {
    pub exit: bool,
    pub character: Character,
    pub board: Board,
    pub score: u64,
    pub fruit_placed: bool,
    pub cheat_buffer: Vec<char>,
}

impl App {
    /// Session invariant: the board and the actor are well-formed, the
    /// actor stands on the board whenever the board has any cells, and
    /// the score plus everything still collectible never exceeds one
    /// point per cell plus the one special fruit.
    pub open spec fn wf(&self) -> bool {
        &&& self.board.wf()
        &&& self.character.wf()
        &&& (self.board.width > 0 && self.board.height > 0 ==> self.character.x
            < self.board.width && self.character.y < self.board.height)
        &&& self.score as int + grid_budget(self.board@) <= self.board.width as int
            * self.board.height as int + if self.fruit_placed {
            100int
        } else {
            0int
        }
    }

    /// A fresh session around the given actor, with no board yet.
    pub fn new(exit: bool, character: Character) -> (r: Self)
        requires
            character.wf(),
        ensures
            r.wf(),
            r.exit == exit,
            r.character == character,
            r.board.width == 0,
            r.board.height == 0,
            r.score == 0,
            r.fruit_placed == false,
            r.cheat_buffer@ == Seq::<char>::empty(),
    {
        Self {
            exit,
            character,
            board: Board::empty(),
            score: 0,
            fruit_placed: false,
            cheat_buffer: Vec::new(),
        }
    }

    /// Starts (or restarts) a session's grid: a checkerboard of pellet
    /// lanes with a handful of power-ups scattered onto them, a zeroed
    /// score, and the actor wrapped into the new bounds. Zero-sized
    /// dimensions are rejected and leave the session untouched.
    pub fn generate_board(&mut self, width: usize, height: usize, seed: u64) -> (r: Result<
        (),
        GameError,
    >)
        requires
            old(self).wf(),
            width <= MAX_DIM,
            height <= MAX_DIM,
        ensures
            final(self).wf(),
            r is Err <==> (width == 0 || height == 0),
            r is Err ==> r == Err::<(), GameError>(GameError::InvalidDimensions) && *final(self)
                == *old(self),
            r is Ok ==> {
                &&& final(self).board.wf()
                &&& final(self).board.width == width
                &&& final(self).board.height == height
                &&& final(self).score == 0
                &&& final(self).fruit_placed == false
                &&& final(self).exit == old(self).exit
                &&& final(self).cheat_buffer@ == old(self).cheat_buffer@
                &&& final(self).character.x == old(self).character.x as int % width as int
                &&& final(self).character.y == old(self).character.y as int % height as int
                &&& final(self).character.direction == old(self).character.direction
                &&& final(self).character.boost() == old(self).character.boost()
                &&& forall|yy: int, xx: int|
                    0 <= yy < height && 0 <= xx < width
                        ==> (#[trigger] final(self).board@[yy][xx] == (if xx % 2 == 0 {
                        Cell::Pellet
                    } else {
                        Cell::Empty
                    }) || (xx % 2 == 0 && final(self).board@[yy][xx] == Cell::PowerUp))
                &&& exists|yy: int, xx: int|
                    0 <= yy < height && 0 <= xx < width && #[trigger] final(self).board@[yy][xx]
                        == Cell::PowerUp
            },
    {
        let mut b = match Board::generate(width, height) {
            Ok(b) => b,
            Err(e) => {
                return Err(e);
            },
        };
        let ghost g0 = b@;
        proof {
            assert forall|i: int| 0 <= i < g0.len() implies crate::board::row_budget(
                #[trigger] g0[i],
            ) <= width as int by {
                assert(forall|j: int|
                    0 <= j < g0[i].len() ==> cell_points(#[trigger] g0[i][j]) <= 1);
                lemma_row_budget_le(g0[i], 1);
            }
            lemma_grid_budget_le(g0, width as int);
            assert(g0.len() * width as int == height as int * width as int);
        }
        proof {
            assert(crate::board::eligible(g0, 0, 0));
        }
        b.place_random(Cell::PowerUp, POWERUP_SEED_COUNT, seed);
        proof {
            assert(height as int * width as int == width as int * height as int)
                by (nonlinear_arith);
        }
        self.board = b;
        self.score = 0;
        self.fruit_placed = false;
        self.character.x = self.character.x % width;
        self.character.y = self.character.y % height;
        Ok(())
    }

    /// Clears the cell the actor vacates; once consumed or vacated, a
    /// cell's pellet is never restored.
    pub fn update_board(&mut self, x: usize, y: usize)
        requires
            old(self).wf(),
            x < old(self).board.width,
            y < old(self).board.height,
        ensures
            final(self).wf(),
            final(self).board@ == old(self).board@.update(
                y as int,
                old(self).board@[y as int].update(x as int, Cell::Empty),
            ),
            final(self).board.width == old(self).board.width,
            final(self).board.height == old(self).board.height,
            final(self).character == old(self).character,
            final(self).score == old(self).score,
            final(self).exit == old(self).exit,
            final(self).fruit_placed == old(self).fruit_placed,
            final(self).cheat_buffer@ == old(self).cheat_buffer@,
    {
        let ghost g0 = self.board@;
        self.board.set(x, y, Cell::Empty);
        proof {
            lemma_row_budget_update(g0[y as int], x as int, Cell::Empty);
            lemma_grid_budget_update(g0, y as int, g0[y as int].update(x as int, Cell::Empty));
        }
    }

    /// Interprets the cheat buffer and clears it whatever it held: the
    /// word "speed" arms the extreme boost, anything else changes
    /// nothing.
    pub fn execute_cheat(&mut self)
        requires
            old(self).wf(),
        ensures
            final(self).wf(),
            final(self).cheat_buffer@ == Seq::<char>::empty(),
            old(self).cheat_buffer@ == speed_cheat_word() ==> {
                &&& final(self).character.boost() == extreme_boost(old(self).character.boost())
                &&& final(self).character.x == old(self).character.x
                &&& final(self).character.y == old(self).character.y
                &&& final(self).character.character == old(self).character.character
                &&& final(self).character.direction == old(self).character.direction
                &&& final(self).character.last_move_time == old(self).character.last_move_time
                &&& final(self).character.collected_fruits@ == old(
                    self,
                ).character.collected_fruits@
            },
            old(self).cheat_buffer@ != speed_cheat_word() ==> final(self).character == old(
                self,
            ).character,
            final(self).board@ == old(self).board@,
            final(self).board.width == old(self).board.width,
            final(self).board.height == old(self).board.height,
            final(self).score == old(self).score,
            final(self).exit == old(self).exit,
            final(self).fruit_placed == old(self).fruit_placed,
    {
        let is_speed = self.cheat_buffer.len() == 5 && self.cheat_buffer[0] == 's'
            && self.cheat_buffer[1] == 'p' && self.cheat_buffer[2] == 'e' && self.cheat_buffer[3]
            == 'e' && self.cheat_buffer[4] == 'd';
        proof {
            if is_speed {
                assert(self.cheat_buffer@ =~= speed_cheat_word());
            } else {
                if self.cheat_buffer@ == speed_cheat_word() {
                    assert(self.cheat_buffer@.len() == 5);
                    assert(self.cheat_buffer@[0] == 's' && self.cheat_buffer@[1] == 'p'
                        && self.cheat_buffer@[2] == 'e' && self.cheat_buffer@[3] == 'e'
                        && self.cheat_buffer@[4] == 'd');
                }
            }
        }
        if is_speed {
            self.character.speed_boost_active = true;
            self.character.effective_speed = 0;
            if self.character.boost_ticks_remaining < CHEAT_BOOST_TICKS {
                self.character.boost_ticks_remaining = CHEAT_BOOST_TICKS;
            }
        }
        self.cheat_buffer = Vec::new();
    }

    /// Dispatches one decoded input event: quit raises the exit flag,
    /// a turn changes the actor's facing, a cheat character grows the
    /// buffer, and the execute trigger interprets and clears it.
    pub fn handle_input(&mut self, ev: InputEvent)
        requires
            old(self).wf(),
        ensures
            final(self).wf(),
            final(self).board@ == old(self).board@,
            final(self).board.width == old(self).board.width,
            final(self).board.height == old(self).board.height,
            final(self).score == old(self).score,
            final(self).fruit_placed == old(self).fruit_placed,
            final(self).exit == (old(self).exit || ev == InputEvent::Quit),
            ev == InputEvent::Quit ==> final(self).character == old(self).character && final(self).cheat_buffer@ == old(self).cheat_buffer@,
            ev matches InputEvent::Turn(d) ==> final(self).character.direction == d && final(self).character.x == old(self).character.x && final(self).character.y == old(
                self,
            ).character.y && final(self).character.boost() == old(self).character.boost()
                && final(self).character.collected_fruits@ == old(self).character.collected_fruits@
                && final(self).cheat_buffer@ == old(self).cheat_buffer@,
            ev matches InputEvent::CheatChar(c) ==> final(self).cheat_buffer@ == old(
                self,
            ).cheat_buffer@.push(c) && final(self).character == old(self).character,
            ev == InputEvent::CheatExec ==> {
                &&& final(self).cheat_buffer@ == Seq::<char>::empty()
                &&& (old(self).cheat_buffer@ == speed_cheat_word() ==> final(self).character.boost() == extreme_boost(old(self).character.boost()))
                &&& (old(self).cheat_buffer@ != speed_cheat_word() ==> final(self).character
                    == old(self).character)
            },
    {
        match ev {
            InputEvent::Quit => {
                self.exit = true;
            },
            InputEvent::Turn(d) => {
                self.character.set_direction(d);
            },
            InputEvent::CheatChar(c) => {
                self.cheat_buffer.push(c);
            },
            InputEvent::CheatExec => {
                self.execute_cheat();
            },
        }
    }

    /// One iteration of game time. On a board with cells, the actor
    /// takes its tick against the board (movement gated by cadence,
    /// collision resolved, score and buffs updated); then, the first
    /// time the score reaches the milestone, the special fruit appears
    /// mid-board, exactly once per session. Without a board the tick
    /// changes nothing. The score never decreases.
    pub fn tick(&mut self, now: u64)
        requires
            old(self).wf(),
            now >= old(self).character.last_move_time,
        ensures
            final(self).wf(),
            final(self).score >= old(self).score,
            final(self).exit == old(self).exit,
            final(self).cheat_buffer@ == old(self).cheat_buffer@,
            final(self).board.width == old(self).board.width,
            final(self).board.height == old(self).board.height,
            (old(self).board.width == 0 || old(self).board.height == 0) ==> *final(self) == *old(
                self,
            ),
            (old(self).board.width > 0 && old(self).board.height > 0) ==> ({
                let ch0 = old(self).character;
                let g0 = old(self).board@;
                let w = old(self).board.width as int;
                let h = old(self).board.height as int;
                let m = ch0.move_due(now);
                let nx = if m {
                    step_x(ch0.x as int, ch0.direction, w)
                } else {
                    ch0.x as int
                };
                let ny = if m {
                    step_y(ch0.y as int, ch0.direction, h)
                } else {
                    ch0.y as int
                };
                let c = g0[ny][nx];
                let s1 = old(self).score + cell_points(c);
                let g1 = g0.update(ny, g0[ny].update(nx, Cell::Empty));
                let fruit_now = s1 >= FRUIT_MILESTONE && !old(self).fruit_placed;
                &&& final(self).character.x == nx
                &&& final(self).character.y == ny
                &&& final(self).character.direction == ch0.direction
                &&& final(self).character.character == (if m {
                    toggle_glyph(ch0.character)
                } else {
                    ch0.character
                })
                &&& final(self).character.last_move_time == (if m {
                    now
                } else {
                    ch0.last_move_time
                })
                &&& final(self).character.boost() == boost_enter(
                    if m {
                        boost_decay(ch0.boost())
                    } else {
                        ch0.boost()
                    },
                    c,
                )
                &&& final(self).character.collected_fruits@ == (if c == Cell::SpecialFruit {
                    ch0.collected_fruits@.push(FRUIT_MARK)
                } else {
                    ch0.collected_fruits@
                })
                &&& final(self).score == s1
                &&& final(self).fruit_placed == (old(self).fruit_placed || fruit_now)
                &&& final(self).board@ == (if fruit_now {
                    g1.update(h / 2, g1[h / 2].update(w / 2, Cell::SpecialFruit))
                } else {
                    g1
                })
            }),
    {
        if self.board.width == 0 || self.board.height == 0 {
            return ;
        }
        proof {
            lemma_grid_budget_nonneg(self.board@);
            assert(self.board.width as int * self.board.height as int <= 65535 * 65535)
                by (nonlinear_arith)
                requires
                    self.board.width <= 65535,
                    self.board.height <= 65535,
            ;
        }
        let ghost g0 = self.board@;
        self.character.render(&mut self.board, &mut self.score, now);
        proof {
            let ny = self.character.y as int;
            let nx = self.character.x as int;
            lemma_row_budget_update(g0[ny], nx, Cell::Empty);
            lemma_grid_budget_update(g0, ny, g0[ny].update(nx, Cell::Empty));
        }
        if self.score >= FRUIT_MILESTONE && !self.fruit_placed {
            let fx = self.board.width / 2;
            let fy = self.board.height / 2;
            let ghost g1 = self.board@;
            self.board.place_at(fx, fy, Cell::SpecialFruit);
            self.fruit_placed = true;
            proof {
                lemma_row_budget_update(g1[fy as int], fx as int, Cell::SpecialFruit);
                lemma_grid_budget_update(
                    g1,
                    fy as int,
                    g1[fy as int].update(fx as int, Cell::SpecialFruit),
                );
            }
        }
    }

    /// The drawable frame for the render sink: every cell's glyph,
    /// with the actor's own glyph written over the cell it stands on.
    /// The underlying board data is not touched.
    pub fn frame(&self) -> (r: Vec<Vec<char>>)
        requires
            self.wf(),
        ensures
            r@.len() == self.board.height,
            forall|yy: int| 0 <= yy < r@.len() ==> (#[trigger] r@[yy])@.len() == self.board.width,
            forall|yy: int, xx: int|
                0 <= yy < self.board.height && 0 <= xx < self.board.width
                    ==> #[trigger] r@[yy]@[xx] == (if yy == self.character.y && xx
                    == self.character.x {
                    self.character.character
                } else {
                    spec_glyph(self.board@[yy][xx])
                }),
    {
        let mut r: Vec<Vec<char>> = Vec::new();
        let mut y: usize = 0;
        while y < self.board.height
            invariant
                self.wf(),
                y <= self.board.height,
                r@.len() == y,
                forall|yy: int| 0 <= yy < y ==> (#[trigger] r@[yy])@.len() == self.board.width,
                forall|yy: int, xx: int|
                    0 <= yy < y && 0 <= xx < self.board.width ==> #[trigger] r@[yy]@[xx] == (if yy
                        == self.character.y && xx == self.character.x {
                        self.character.character
                    } else {
                        spec_glyph(self.board@[yy][xx])
                    }),
            decreases self.board.height - y,
        {
            let mut row: Vec<char> = Vec::new();
            let mut x: usize = 0;
            while x < self.board.width
                invariant
                    self.wf(),
                    y < self.board.height,
                    x <= self.board.width,
                    row@.len() == x,
                    forall|xx: int|
                        0 <= xx < x ==> #[trigger] row@[xx] == (if y == self.character.y && xx
                            == self.character.x {
                            self.character.character
                        } else {
                            spec_glyph(self.board@[y as int][xx])
                        }),
                decreases self.board.width - x,
            {
                if y == self.character.y && x == self.character.x {
                    row.push(self.character.character);
                } else {
                    row.push(glyph(self.board.get(x, y)));
                }
                x += 1;
            }
            r.push(row);
            y += 1;
        }
        r
    }
}

/// The score is monotonically non-decreasing across any sequence of
/// ticks: every tick's contract allows no drop from one observation to
/// the next, so no later observation falls below an earlier one.
pub proof fn lemma_score_chain(scores: Seq<int>)
    requires
        forall|i: int| 0 <= i < scores.len() - 1 ==> #[trigger] scores[i] <= scores[i + 1],
    ensures
        forall|i: int, j: int| 0 <= i <= j < scores.len() ==> #[trigger] scores[i]
            <= #[trigger] scores[j],
{
    assert forall|i: int, j: int| 0 <= i <= j < scores.len() implies #[trigger] scores[i]
        <= #[trigger] scores[j] by {
        lemma_score_chain_step(scores, i, j);
    }
}

/// One span of the chain: induction on the distance between the two
/// observations.
proof fn lemma_score_chain_step(scores: Seq<int>, i: int, j: int)
    requires
        forall|k: int| 0 <= k < scores.len() - 1 ==> #[trigger] scores[k] <= scores[k + 1],
        0 <= i <= j < scores.len(),
    ensures
        scores[i] <= scores[j],
    decreases j - i,
{
    if i < j {
        lemma_score_chain_step(scores, i, j - 1);
        assert(scores[j - 1] <= scores[j]);
    }
}

} // verus!
