use vstd::prelude::*;

use crate::board::Board;
use crate::cell::{cell_points, points, Cell, Direction};

verus! {

/// Extra movement ticks granted by one power-up.
pub const BOOST_BONUS_TICKS: i32 = 20;

/// Marker appended to the collected-fruit log for one special fruit.
pub const FRUIT_MARK: char = '%';

/// The speed-buff portion of the actor's state, as mathematical values.
pub ghost struct Boost {
    pub active: bool,
    pub base: int,
    pub eff: int,
    pub ticks: int,
}

/// Well-formed buff state: the effective cadence never falls behind
/// the base cadence, and the tick counter is positive exactly while a
/// boost is active.
pub open spec fn boost_wf(b: Boost) -> bool {
    &&& 0 <= b.eff <= b.base <= u64::MAX
    &&& 0 <= b.ticks <= i32::MAX
    &&& (b.active ==> b.ticks > 0)
    &&& (!b.active ==> b.eff == b.base && b.ticks == 0)
}

/// One movement tick of buff bookkeeping: an active boost loses one
/// tick; when none remain it ends and the base cadence returns.
pub open spec fn boost_decay(b: Boost) -> Boost {
    if b.active {
        if b.ticks <= 1 {
            Boost { active: false, base: b.base, eff: b.base, ticks: 0 }
        } else {
            Boost { active: true, base: b.base, eff: b.eff, ticks: b.ticks - 1 }
        }
    } else {
        b
    }
}

/// Power-up activation: the cadence is halved against the base, never
/// above the cadence already in force, and the remaining ticks grow;
/// a re-trigger never lowers what remains (capped only by the counter
/// type).
pub open spec fn boost_powerup(b: Boost) -> Boost {
    Boost {
        active: true,
        base: b.base,
        eff: if b.base / 2 < b.eff {
            b.base / 2
        } else {
            b.eff
        },
        ticks: if b.ticks + BOOST_BONUS_TICKS <= i32::MAX {
            b.ticks + BOOST_BONUS_TICKS
        } else {
            i32::MAX as int
        },
    }
}

/// Effect on the buff state of entering a cell.
pub open spec fn boost_enter(b: Boost, c: Cell) -> Boost {
    if c == Cell::PowerUp {
        boost_powerup(b)
    } else {
        b
    }
}

/// `n` movement ticks of buff bookkeeping with no re-trigger.
pub open spec fn boost_decay_n(b: Boost, n: nat) -> Boost
    decreases n,
{
    if n == 0 {
        b
    } else {
        boost_decay_n(boost_decay(b), (n - 1) as nat)
    }
}

/// Horizontal movement is a torus: leaving column zero re-enters at
/// the last column and leaving the last column re-enters at zero.
pub open spec fn step_x(x: int, d: Direction, w: int) -> int {
    match d {
        Direction::Left => if x > 0 {
            x - 1
        } else {
            w - 1
        },
        Direction::Right => if x + 1 < w {
            x + 1
        } else {
            0
        },
        _ => x,
    }
}

/// Vertical movement, wrapping like `step_x`.
pub open spec fn step_y(y: int, d: Direction, h: int) -> int {
    match d {
        Direction::Up => if y > 0 {
            y - 1
        } else {
            h - 1
        },
        Direction::Down => if y + 1 < h {
            y + 1
        } else {
            0
        },
        _ => y,
    }
}

/// Two-frame walk animation: the glyph alternates between 'C' and 'O'
/// on every movement tick.
pub open spec fn toggle_glyph(c: char) -> char {
    if c == 'C' {
        'O'
    } else {
        'C'
    }
}

/// The controllable actor: position, facing, movement cadence, active
/// buff, and the append-only log of collected fruit.
#[derive(Debug)]
pub struct Character {
    pub x: usize,
    pub y: usize,
    pub character: char,
    pub direction: Direction,
    pub last_move_time: u64,
    pub base_speed: u64,
    pub effective_speed: u64,
    pub speed_boost_active: bool,
    pub boost_ticks_remaining: i32,
    pub collected_fruits: Vec<char>,
}

impl Character {
    /// The buff fields, seen as one mathematical value.
    pub open spec fn boost(&self) -> Boost {
        Boost {
            active: self.speed_boost_active,
            base: self.base_speed as int,
            eff: self.effective_speed as int,
            ticks: self.boost_ticks_remaining as int,
        }
    }

    /// Invariant of the actor's buff fields.
    pub open spec fn wf(&self) -> bool {
        boost_wf(self.boost())
    }

    /// Cadence gate: enough time has passed since the last movement
    /// for the actor to move on a tick happening at `now`.
    pub open spec fn move_due(&self, now: u64) -> bool {
        now - self.last_move_time >= self.effective_speed
    }

    /// A fresh actor at the given position, facing right, moving on
    /// every tick until a cadence is set.
    pub fn new(x: usize, y: usize, character: char) -> (r: Self)
        ensures
            r.x == x,
            r.y == y,
            r.character == character,
            r.direction == Direction::Right,
            r.last_move_time == 0,
            r.base_speed == 0,
            r.effective_speed == 0,
            r.speed_boost_active == false,
            r.boost_ticks_remaining == 0,
            r.collected_fruits@ == Seq::<char>::empty(),
            r.wf(),
    {
        Self {
            x,
            y,
            character,
            direction: Direction::Right,
            last_move_time: 0,
            base_speed: 0,
            effective_speed: 0,
            speed_boost_active: false,
            boost_ticks_remaining: 0,
            collected_fruits: Vec::new(),
        }
    }

    /// Change of facing from directional input; takes effect on the
    /// next tick. Every direction is always legal.
    pub fn set_direction(&mut self, d: Direction)
        ensures
            final(self).direction == d,
            final(self).x == old(self).x,
            final(self).y == old(self).y,
            final(self).character == old(self).character,
            final(self).last_move_time == old(self).last_move_time,
            final(self).base_speed == old(self).base_speed,
            final(self).effective_speed == old(self).effective_speed,
            final(self).speed_boost_active == old(self).speed_boost_active,
            final(self).boost_ticks_remaining == old(self).boost_ticks_remaining,
            final(self).collected_fruits@ == old(self).collected_fruits@,
    {
        self.direction = d;
    }

    /// Sets the base cadence. The effective cadence follows unless a
    /// boost already in force is faster.
    pub fn set_base_speed(&mut self, s: u64)
        requires
            old(self).wf(),
        ensures
            final(self).wf(),
            final(self).base_speed == s,
            final(self).effective_speed == if old(self).speed_boost_active
                && old(self).effective_speed < s {
                old(self).effective_speed
            } else {
                s
            },
            final(self).x == old(self).x,
            final(self).y == old(self).y,
            final(self).character == old(self).character,
            final(self).direction == old(self).direction,
            final(self).last_move_time == old(self).last_move_time,
            final(self).speed_boost_active == old(self).speed_boost_active,
            final(self).boost_ticks_remaining == old(self).boost_ticks_remaining,
            final(self).collected_fruits@ == old(self).collected_fruits@,
    {
        self.base_speed = s;
        if !(self.speed_boost_active && self.effective_speed < s) {
            self.effective_speed = s;
        }
    }

    /// One tick of the actor against the board.
    ///
    /// When the cadence gate is open the actor takes one wrapping step
    /// along its facing, the walk animation toggles, an active boost
    /// loses a tick, and the movement timestamp advances to `now`;
    /// otherwise position, glyph, buff clock and timestamp stand
    /// still. Either way the cell the actor stands on is then
    /// resolved: its points are added to the score, a special fruit is
    /// logged, a power-up arms the boost, and the cell becomes
    /// permanently empty.
    pub fn render(&mut self, board: &mut Board, score: &mut u64, now: u64)
        requires
            old(board).wf(),
            old(board).width > 0,
            old(board).height > 0,
            old(self).x < old(board).width,
            old(self).y < old(board).height,
            old(self).wf(),
            now >= old(self).last_move_time,
            *old(score) + 100 <= u64::MAX,
        ensures
            final(board).wf(),
            final(board).width == old(board).width,
            final(board).height == old(board).height,
            final(self).wf(),
            final(self).x == if old(self).move_due(now) {
                step_x(old(self).x as int, old(self).direction, old(board).width as int)
            } else {
                old(self).x as int
            },
            final(self).y == if old(self).move_due(now) {
                step_y(old(self).y as int, old(self).direction, old(board).height as int)
            } else {
                old(self).y as int
            },
            final(self).x < old(board).width,
            final(self).y < old(board).height,
            final(self).character == if old(self).move_due(now) {
                toggle_glyph(old(self).character)
            } else {
                old(self).character
            },
            final(self).last_move_time == if old(self).move_due(now) {
                now
            } else {
                old(self).last_move_time
            },
            final(self).direction == old(self).direction,
            final(self).boost() == boost_enter(
                if old(self).move_due(now) {
                    boost_decay(old(self).boost())
                } else {
                    old(self).boost()
                },
                old(board)@[final(self).y as int][final(self).x as int],
            ),
            final(self).collected_fruits@ == if old(board)@[final(self).y as int][final(self).x as int]
                == Cell::SpecialFruit {
                old(self).collected_fruits@.push(FRUIT_MARK)
            } else {
                old(self).collected_fruits@
            },
            *final(score) == *old(score) + cell_points(
                old(board)@[final(self).y as int][final(self).x as int],
            ),
            *final(score) >= *old(score),
            final(board)@ == old(board)@.update(
                final(self).y as int,
                old(board)@[final(self).y as int].update(final(self).x as int, Cell::Empty),
            ),
    {
        let moved = now - self.last_move_time >= self.effective_speed;
        if moved {
            self.x = match self.direction {
                Direction::Left => if self.x > 0 {
                    self.x - 1
                } else {
                    board.width - 1
                },
                Direction::Right => if self.x + 1 < board.width {
                    self.x + 1
                } else {
                    0
                },
                _ => self.x,
            };
            self.y = match self.direction {
                Direction::Up => if self.y > 0 {
                    self.y - 1
                } else {
                    board.height - 1
                },
                Direction::Down => if self.y + 1 < board.height {
                    self.y + 1
                } else {
                    0
                },
                _ => self.y,
            };
            self.character = if self.character == 'C' {
                'O'
            } else {
                'C'
            };
            if self.speed_boost_active {
                self.boost_ticks_remaining = self.boost_ticks_remaining - 1;
                if self.boost_ticks_remaining == 0 {
                    self.speed_boost_active = false;
                    self.effective_speed = self.base_speed;
                }
            }
            self.last_move_time = now;
        }
        let c = board.get(self.x, self.y);
        *score = *score + points(c);
        match c {
            Cell::SpecialFruit => {
                self.collected_fruits.push(FRUIT_MARK);
            },
            Cell::PowerUp => {
                self.speed_boost_active = true;
                let half = self.base_speed / 2;
                if half < self.effective_speed {
                    self.effective_speed = half;
                }
                if self.boost_ticks_remaining <= i32::MAX - BOOST_BONUS_TICKS {
                    self.boost_ticks_remaining = self.boost_ticks_remaining + BOOST_BONUS_TICKS;
                } else {
                    self.boost_ticks_remaining = i32::MAX;
                }
            },
            _ => {},
        }
        board.set(self.x, self.y, Cell::Empty);
    }
}

/// Movement is a torus: one step away from any edge re-enters at the
/// opposite edge, in all four directions.
pub proof fn lemma_torus_wrap(w: int, h: int)
    requires
        w > 0,
        h > 0,
    ensures
        step_x(0, Direction::Left, w) == w - 1,
        step_x(w - 1, Direction::Right, w) == 0,
        step_y(0, Direction::Up, h) == h - 1,
        step_y(h - 1, Direction::Down, h) == 0,
{
}

/// An active boost stays active through every strictly earlier tick
/// and ends after exactly its remaining ticks, restoring the base
/// cadence.
pub proof fn lemma_boost_runs_out(b: Boost)
    requires
        boost_wf(b),
        b.active,
    ensures
        forall|m: nat| m < b.ticks ==> (#[trigger] boost_decay_n(b, m)).active,
        !boost_decay_n(b, b.ticks as nat).active,
        boost_decay_n(b, b.ticks as nat).eff == b.base,
        boost_decay_n(b, b.ticks as nat).ticks == 0,
    decreases b.ticks,
{
    let d = boost_decay(b);
    if b.ticks == 1 {
        assert(boost_decay_n(b, 1) == boost_decay_n(d, 0));
        assert(forall|m: nat| m < 1 ==> boost_decay_n(b, m) == b);
    } else {
        lemma_boost_runs_out(d);
        assert(boost_decay_n(b, b.ticks as nat) == boost_decay_n(d, d.ticks as nat));
        assert forall|m: nat| m < b.ticks implies (#[trigger] boost_decay_n(b, m)).active by {
            if m > 0 {
                assert(boost_decay_n(b, m) == boost_decay_n(d, (m - 1) as nat));
            }
        }
    }
}

/// Picking up a power-up makes the actor strictly faster than its
/// base cadence and leaves ticks on the clock; after exactly that
/// many further movement ticks with no re-trigger the boost is gone
/// and the base cadence is back.
pub proof fn lemma_powerup_expiry(b: Boost)
    requires
        boost_wf(b),
        b.base > 0,
    ensures
        boost_powerup(b).eff < b.base,
        boost_powerup(b).ticks > 0,
        boost_wf(boost_powerup(b)),
        !boost_decay_n(boost_powerup(b), boost_powerup(b).ticks as nat).active,
        boost_decay_n(boost_powerup(b), boost_powerup(b).ticks as nat).eff == b.base,
{
    let p = boost_powerup(b);
    lemma_boost_runs_out(p);
}

/// Consuming a pellet scores exactly one point and leaves the cell
/// empty, so entering the same cell again scores nothing.
pub proof fn lemma_pellet_consumed_once(g: Seq<Seq<Cell>>, x: int, y: int)
    requires
        0 <= y < g.len(),
        0 <= x < g[y].len(),
        g[y][x] == Cell::Pellet,
    ensures
        cell_points(g[y][x]) == 1,
        g.update(y, g[y].update(x, Cell::Empty))[y][x] == Cell::Empty,
        cell_points(g.update(y, g[y].update(x, Cell::Empty))[y][x]) == 0,
{
}

} // verus!
