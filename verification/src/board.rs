use vstd::prelude::*;

use crate::cell::{cell_points, Cell};

verus! {

/// Largest accepted board dimension. Display areas come from a
/// terminal whose width and height are 16-bit quantities.
pub const MAX_DIM: usize = 65535;

/// Errors of the engine. A zero-sized board is rejected at generation;
/// out-of-range cell access is a programming error and is excluded by
/// contract rather than reported.
#[derive(Clone, Copy, Debug, PartialEq, Eq, Structural)]
pub enum GameError {
    InvalidDimensions,
}

/// The playing field: a `width x height` grid of cells, row-major.
/// The dimensions are fixed for the lifetime of a game session.
#[derive(Debug)]
pub struct Board {
    pub cells: Vec<Vec<Cell>>,
    pub width: usize,
    pub height: usize,
}

/// Score still reachable from one row: 1 point per pellet plus 100 per
/// special fruit.
pub open spec fn row_budget(row: Seq<Cell>) -> int
    decreases row.len(),
{
    if row.len() == 0 {
        0
    } else {
        cell_points(row[0]) + row_budget(row.drop_first())
    }
}

/// Score still reachable from a whole grid.
pub open spec fn grid_budget(g: Seq<Seq<Cell>>) -> int
    decreases g.len(),
{
    if g.len() == 0 {
        0
    } else {
        row_budget(g[0]) + grid_budget(g.drop_first())
    }
}

/// A cell that random placement may overwrite: it lies in an even
/// column (a pellet lane) and currently holds a pellet or nothing.
pub open spec fn eligible(g: Seq<Seq<Cell>>, x: int, y: int) -> bool {
    &&& 0 <= y < g.len()
    &&& 0 <= x < g[y].len()
    &&& x % 2 == 0
    &&& (g[y][x] == Cell::Pellet || g[y][x] == Cell::Empty)
}

/// Every cell is worth a non-negative number of points, so a row's
/// budget is never negative.
pub proof fn lemma_row_budget_nonneg(row: Seq<Cell>)
    ensures
        row_budget(row) >= 0,
    decreases row.len(),
{
    if row.len() != 0 {
        lemma_row_budget_nonneg(row.drop_first());
    }
}

/// A whole grid's budget is never negative.
pub proof fn lemma_grid_budget_nonneg(g: Seq<Seq<Cell>>)
    ensures
        grid_budget(g) >= 0,
    decreases g.len(),
{
    if g.len() != 0 {
        lemma_row_budget_nonneg(g[0]);
        lemma_grid_budget_nonneg(g.drop_first());
    }
}

/// If every cell of a row is worth at most `k` points, the row's
/// budget is at most `k` per cell.
pub proof fn lemma_row_budget_le(row: Seq<Cell>, k: int)
    requires
        k >= 0,
        forall|i: int| 0 <= i < row.len() ==> cell_points(#[trigger] row[i]) <= k,
    ensures
        row_budget(row) <= row.len() * k,
    decreases row.len(),
{
    if row.len() == 0 {
    } else {
        let rest = row.drop_first();
        assert(forall|i: int| 0 <= i < rest.len() ==> cell_points(#[trigger] rest[i]) <= k) by {
            assert(forall|i: int| 0 <= i < rest.len() ==> #[trigger] rest[i] == row[i + 1]);
        }
        lemma_row_budget_le(rest, k);
        assert(cell_points(row[0]) <= k);
        assert(row.len() as int * k == k + (row.len() - 1) * k) by (nonlinear_arith)
            requires
                row.len() >= 1,
        ;
    }
}

/// If every row's budget is at most `w`, the grid's budget is at most
/// `w` per row.
pub proof fn lemma_grid_budget_le(g: Seq<Seq<Cell>>, w: int)
    requires
        w >= 0,
        forall|i: int| 0 <= i < g.len() ==> row_budget(#[trigger] g[i]) <= w,
    ensures
        grid_budget(g) <= g.len() * w,
    decreases g.len(),
{
    if g.len() == 0 {
    } else {
        let rest = g.drop_first();
        assert(forall|i: int| 0 <= i < rest.len() ==> #[trigger] rest[i] == g[i + 1]);
        lemma_grid_budget_le(rest, w);
        assert(g.len() as int * w == w + (g.len() - 1) * w) by (nonlinear_arith)
            requires
                g.len() >= 1,
        ;
    }
}

/// Overwriting one cell changes the row's budget by exactly the
/// difference in point value.
pub proof fn lemma_row_budget_update(row: Seq<Cell>, i: int, v: Cell)
    requires
        0 <= i < row.len(),
    ensures
        row_budget(row.update(i, v)) == row_budget(row) - cell_points(row[i]) + cell_points(v),
    decreases row.len(),
{
    let u = row.update(i, v);
    if i == 0 {
        assert(u.drop_first() =~= row.drop_first());
    } else {
        assert(u.drop_first() =~= row.drop_first().update(i - 1, v));
        lemma_row_budget_update(row.drop_first(), i - 1, v);
        assert(row.drop_first()[i - 1] == row[i]);
    }
}

/// Replacing one row changes the grid's budget by exactly the
/// difference in row budget.
pub proof fn lemma_grid_budget_update(g: Seq<Seq<Cell>>, y: int, row: Seq<Cell>)
    requires
        0 <= y < g.len(),
    ensures
        grid_budget(g.update(y, row)) == grid_budget(g) - row_budget(g[y]) + row_budget(row),
    decreases g.len(),
{
    let u = g.update(y, row);
    if y == 0 {
        assert(u.drop_first() =~= g.drop_first());
    } else {
        assert(u.drop_first() =~= g.drop_first().update(y - 1, row));
        lemma_grid_budget_update(g.drop_first(), y - 1, row);
        assert(g.drop_first()[y - 1] == g[y]);
    }
}

impl View for Board {
    type V = Seq<Seq<Cell>>;

    open spec fn view(&self) -> Seq<Seq<Cell>> {
        Seq::new(self.cells@.len(), |i: int| self.cells@[i]@)
    }
}

impl Board {
    /// Well-formed: the nested vectors match the stated dimensions and
    /// the dimensions fit a terminal-sized area.
    pub open spec fn wf(&self) -> bool {
        &&& self.cells@.len() == self.height
        &&& (forall|i: int|
            0 <= i < self.cells@.len() ==> (#[trigger] self.cells@[i])@.len() == self.width)
        &&& self.width <= MAX_DIM
        &&& self.height <= MAX_DIM
    }

    /// The 0 x 0 board: the state of a session before its grid exists.
    pub fn empty() -> (b: Board)
        ensures
            b.wf(),
            b.width == 0,
            b.height == 0,
            b@.len() == 0,
    {
        Board { cells: Vec::new(), width: 0, height: 0 }
    }

    /// Bounds-checked read of one cell.
    pub fn get(&self, x: usize, y: usize) -> (c: Cell)
        requires
            self.wf(),
            x < self.width,
            y < self.height,
        ensures
            c == self@[y as int][x as int],
    {
        self.cells[y][x]
    }

    /// Bounds-checked overwrite of one cell.
    pub fn set(&mut self, x: usize, y: usize, v: Cell)
        requires
            old(self).wf(),
            x < old(self).width,
            y < old(self).height,
        ensures
            final(self).wf(),
            final(self).width == old(self).width,
            final(self).height == old(self).height,
            final(self)@ == old(self)@.update(
                y as int,
                old(self)@[y as int].update(x as int, v),
            ),
    {
        self.cells[y][x] = v;
        proof {
            assert(self@ =~~= old(self)@.update(
                y as int,
                old(self)@[y as int].update(x as int, v),
            ));
        }
    }

    /// Unconditional overwrite, used for the single mid-board special
    /// fruit once the score reaches its milestone.
    pub fn place_at(&mut self, x: usize, y: usize, kind: Cell)
        requires
            old(self).wf(),
            x < old(self).width,
            y < old(self).height,
        ensures
            final(self).wf(),
            final(self).width == old(self).width,
            final(self).height == old(self).height,
            final(self)@ == old(self)@.update(
                y as int,
                old(self)@[y as int].update(x as int, kind),
            ),
    {
        self.set(x, y, kind);
    }

    /// Fresh board: every cell in an even column starts as a pellet,
    /// every cell in an odd column starts empty, giving deterministic
    /// pellet lanes. Zero-sized dimensions are rejected.
    pub fn generate(width: usize, height: usize) -> (r: Result<Board, GameError>)
        requires
            width <= MAX_DIM,
            height <= MAX_DIM,
        ensures
            r is Err <==> (width == 0 || height == 0),
            r is Err ==> r == Err::<Board, GameError>(GameError::InvalidDimensions),
            r matches Ok(b) ==> {
                &&& b.wf()
                &&& b.width == width
                &&& b.height == height
                &&& forall|y: int, x: int|
                    0 <= y < height && 0 <= x < width ==> #[trigger] b@[y][x] == (if x % 2 == 0 {
                        Cell::Pellet
                    } else {
                        Cell::Empty
                    })
            },
    {
        if width == 0 || height == 0 {
            return Err(GameError::InvalidDimensions);
        }
        let mut cells: Vec<Vec<Cell>> = Vec::new();
        let mut y: usize = 0;
        while y < height
            invariant
                y <= height,
                cells@.len() == y,
                forall|i: int| 0 <= i < y ==> (#[trigger] cells@[i])@.len() == width,
                forall|i: int, j: int|
                    0 <= i < y && 0 <= j < width ==> #[trigger] cells@[i]@[j] == (if j % 2 == 0 {
                        Cell::Pellet
                    } else {
                        Cell::Empty
                    }),
            decreases height - y,
        {
            let mut row: Vec<Cell> = Vec::new();
            let mut x: usize = 0;
            while x < width
                invariant
                    x <= width,
                    row@.len() == x,
                    forall|j: int|
                        0 <= j < x ==> #[trigger] row@[j] == (if j % 2 == 0 {
                            Cell::Pellet
                        } else {
                            Cell::Empty
                        }),
                decreases width - x,
            {
                if x % 2 == 0 {
                    row.push(Cell::Pellet);
                } else {
                    row.push(Cell::Empty);
                }
                x += 1;
            }
            cells.push(row);
            y += 1;
        }
        Ok(Board { cells, width, height })
    }

    /// All coordinates, as `(x, y)` pairs, that random placement may
    /// overwrite right now.
    fn eligible_cells(&self) -> (r: Vec<(usize, usize)>)
        requires
            self.wf(),
        ensures
            forall|k: int|
                0 <= k < r@.len() ==> eligible(self@, (#[trigger] r@[k]).0 as int, r@[k].1 as int),
            forall|x: int, y: int|
                eligible(self@, x, y) ==> exists|k: int|
                    0 <= k < r@.len() && (#[trigger] r@[k]).0 == x && r@[k].1 == y,
    {
        let mut r: Vec<(usize, usize)> = Vec::new();
        let mut y: usize = 0;
        while y < self.height
            invariant
                self.wf(),
                y <= self.height,
                forall|k: int|
                    0 <= k < r@.len() ==> eligible(
                        self@,
                        (#[trigger] r@[k]).0 as int,
                        r@[k].1 as int,
                    ),
                forall|xx: int, yy: int|
                    0 <= yy < y && eligible(self@, xx, yy) ==> exists|k: int|
                        0 <= k < r@.len() && (#[trigger] r@[k]).0 == xx && r@[k].1 == yy,
            decreases self.height - y,
        {
            let mut x: usize = 0;
            while x < self.width
                invariant
                    self.wf(),
                    y < self.height,
                    x <= self.width,
                    forall|k: int|
                        0 <= k < r@.len() ==> eligible(
                            self@,
                            (#[trigger] r@[k]).0 as int,
                            r@[k].1 as int,
                        ),
                    forall|xx: int, yy: int|
                        0 <= yy < y && eligible(self@, xx, yy) ==> exists|k: int|
                            0 <= k < r@.len() && (#[trigger] r@[k]).0 == xx && r@[k].1 == yy,
                    forall|xx: int|
                        0 <= xx < x && eligible(self@, xx, y as int) ==> exists|k: int|
                            0 <= k < r@.len() && (#[trigger] r@[k]).0 == xx && r@[k].1 == y,
                decreases self.width - x,
            {
                if x % 2 == 0 {
                    let c = self.get(x, y);
                    let keep = match c {
                        Cell::Pellet => true,
                        Cell::Empty => true,
                        Cell::PowerUp => false,
                        Cell::SpecialFruit => false,
                    };
                    if keep {
                        let ghost r0 = r@;
                        r.push((x, y));
                        proof {
                            assert forall|xx: int, yy: int|
                                0 <= yy < y && eligible(self@, xx, yy) implies exists|k: int|
                                0 <= k < r@.len() && (#[trigger] r@[k]).0 == xx && r@[k].1
                                    == yy by {
                                let k0 = choose|k: int|
                                    0 <= k < r0.len() && (#[trigger] r0[k]).0 == xx && r0[k].1
                                        == yy;
                                assert(r@[k0].0 == xx && r@[k0].1 == yy);
                            }
                            assert forall|xx: int|
                                0 <= xx < x + 1 && eligible(self@, xx, y as int) implies exists|
                                k: int,
                            |
                                0 <= k < r@.len() && (#[trigger] r@[k]).0 == xx && r@[k].1
                                    == y by {
                                if xx < x {
                                    let k0 = choose|k: int|
                                        0 <= k < r0.len() && (#[trigger] r0[k]).0 == xx && r0[k].1
                                            == y;
                                    assert(r@[k0].0 == xx && r@[k0].1 == y);
                                } else {
                                    assert(r@[r0.len() as int] == (x, y));
                                }
                            }
                        }
                    } else {
                        proof {
                            assert(self@[y as int][x as int] == c);
                            assert(!eligible(self@, x as int, y as int));
                        }
                    }
                } else {
                    proof {
                        assert(!eligible(self@, x as int, y as int));
                    }
                }
                x += 1;
            }
            y += 1;
        }
        r
    }

    /// Scatters up to `count` instances of `kind` onto cells that are
    /// currently eligible (even column, holding a pellet or nothing),
    /// choosing each target with a seeded Lehmer pseudo-random step.
    /// A no-op when no eligible cell exists.
    #[verifier::loop_isolation(false)]
    pub fn place_random(&mut self, kind: Cell, count: usize, seed: u64)
        requires
            old(self).wf(),
        ensures
            final(self).wf(),
            final(self).width == old(self).width,
            final(self).height == old(self).height,
            forall|y: int, x: int|
                0 <= y < old(self)@.len() && 0 <= x < old(self)@[y].len()
                    ==> #[trigger] final(self)@[y][x] == old(self)@[y][x] || (eligible(
                    old(self)@,
                    x,
                    y,
                ) && final(self)@[y][x] == kind),
            cell_points(kind) == 0 ==> grid_budget(final(self)@) <= grid_budget(old(self)@),
            (count > 0 && (exists|x: int, y: int| eligible(old(self)@, x, y))) ==> exists|
                y: int,
                x: int,
            |
                0 <= y < final(self)@.len() && 0 <= x < final(self)@[y].len()
                    && final(self)@[y][x] == kind,
    {
        let ghost orig = self@;
        let first = self.eligible_cells();
        if first.len() == 0 {
            proof {
                assert(forall|x: int, y: int| !eligible(orig, x, y));
            }
            return ;
        }
        let ghost witness = first@[0];
        let mut state: u64 = seed % 0x7ffffffe + 1;
        let mut i: usize = 0;
        while i < count
            invariant
                self.wf(),
                self.width == old(self).width,
                self.height == old(self).height,
                i <= count,
                state < 0x7fffffff,
                orig == old(self)@,
                eligible(orig, witness.0 as int, witness.1 as int),
                i == 0 ==> self@ == orig,
                forall|y: int, x: int|
                    0 <= y < orig.len() && 0 <= x < orig[y].len() ==> #[trigger] self@[y][x]
                        == orig[y][x] || (eligible(orig, x, y) && self@[y][x] == kind),
                cell_points(kind) == 0 ==> grid_budget(self@) <= grid_budget(orig),
                i > 0 ==> exists|y: int, x: int|
                    0 <= y < self@.len() && 0 <= x < self@[y].len() && #[trigger] self@[y][x]
                        == kind,
            decreases count - i,
        {
            let elig = self.eligible_cells();
            if elig.len() == 0 {
                proof {
                    if i == 0 {
                        assert(eligible(self@, witness.0 as int, witness.1 as int));
                        assert(false);
                    }
                }
                break ;
            }
            let idx = (state % (elig.len() as u64)) as usize;
            let (x, y) = elig[idx];
            proof {
                assert(eligible(self@, x as int, y as int));
            }
            let ghost before = self@;
            let ghost rowafter = before[y as int].update(x as int, kind);
            self.set(x, y, kind);
            proof {
                lemma_row_budget_update(before[y as int], x as int, kind);
                lemma_grid_budget_update(before, y as int, rowafter);
                assert(self@ == before.update(y as int, rowafter));
                assert(before.len() == orig.len());
                assert(self@[y as int][x as int] == kind);
                assert forall|yy: int, xx: int|
                    0 <= yy < orig.len() && 0 <= xx < orig[yy].len() implies #[trigger] self@[yy][xx]
                    == orig[yy][xx] || (eligible(orig, xx, yy) && self@[yy][xx] == kind) by {
                    if yy == y as int {
                        if xx == x as int {
                            assert(before[yy][xx] == orig[yy][xx] || (eligible(orig, xx, yy)
                                && before[yy][xx] == kind));
                            assert(eligible(orig, xx, yy));
                        } else {
                            assert(self@[yy] == rowafter);
                            assert(rowafter[xx] == before[yy][xx]);
                            assert(before[yy][xx] == orig[yy][xx] || (eligible(orig, xx, yy)
                                && before[yy][xx] == kind));
                        }
                    } else {
                        assert(self@[yy] == before[yy]);
                        assert(before[yy][xx] == orig[yy][xx] || (eligible(orig, xx, yy)
                            && before[yy][xx] == kind));
                    }
                }
            }
            state = (state * 48271) % 0x7fffffff;
            i += 1;
        }
    }
}

} // verus!
