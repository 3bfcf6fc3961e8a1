use vstd::prelude::*;

verus! {

/// One symbol on the board grid. A board position holds exactly one
/// `Cell` value at a time.
#[derive(Clone, Copy, Debug, PartialEq, Eq, Structural)]
pub enum Cell {
    Empty,
    Pellet,
    PowerUp,
    SpecialFruit,
}

/// The actor's facing. `Idle` means no movement; the four others move
/// one cell per movement tick, wrapping around the board edges.
#[derive(Clone, Copy, Debug, PartialEq, Eq, Structural)]
pub enum Direction {
    Left,
    Right,
    Up,
    Down,
    Idle,
}

/// Score value of entering a cell: a pellet is worth 1 point, the
/// special fruit 100, everything else nothing.
pub open spec fn cell_points(c: Cell) -> int {
    match c {
        Cell::Pellet => 1,
        Cell::SpecialFruit => 100,
        Cell::Empty => 0,
        Cell::PowerUp => 0,
    }
}

/// Display glyph of a cell kind, for the render adapter.
pub open spec fn spec_glyph(c: Cell) -> char {
    match c {
        Cell::Empty => ' ',
        Cell::Pellet => '.',
        Cell::PowerUp => '*',
        Cell::SpecialFruit => '%',
    }
}

/// Executable counterpart of `cell_points`.
pub fn points(c: Cell) -> (r: u64)
    ensures
        r == cell_points(c),
{
    match c {
        Cell::Pellet => 1,
        Cell::SpecialFruit => 100,
        Cell::Empty => 0,
        Cell::PowerUp => 0,
    }
}

/// Executable counterpart of `spec_glyph`.
pub fn glyph(c: Cell) -> (r: char)
    ensures
        r == spec_glyph(c),
{
    match c {
        Cell::Empty => ' ',
        Cell::Pellet => '.',
        Cell::PowerUp => '*',
        Cell::SpecialFruit => '%',
    }
}

} // verus!
