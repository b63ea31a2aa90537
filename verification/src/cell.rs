//! The grid cells the tracker consumes: color, decoration flags, and the
//! bounds under which all pixel arithmetic stays inside `i64`.

use vstd::prelude::*;

verus! {

/// 24-bit foreground color of a cell.
#[derive(Debug, Clone, Copy, PartialEq, Eq, Structural)]
pub struct Rgb {
    pub r: u8,
    pub g: u8,
    pub b: u8,
}

/// The decoration flags a single cell carries. A cell may carry any subset.
#[derive(Debug, Clone, Copy, PartialEq, Eq, Structural)]
pub struct CellFlags {
    pub underline: bool,
    pub strikeout: bool,
}

/// The closed set of line-style decorations this crate renders. Each kind is
/// tracked independently by the run-merging machine and maps to its own
/// metric pair (position, thickness).
#[derive(Debug, Clone, Copy, PartialEq, Eq, Structural)]
pub enum DecorationKind {
    Underline,
    Strikeout,
}

/// One renderable grid cell, as the grid traversal hands it out: its row,
/// its column within the row, its foreground color and its decoration flags.
#[derive(Debug, Clone, Copy, PartialEq, Eq, Structural)]
pub struct Cell {
    pub line: usize,
    pub column: usize,
    pub fg: Rgb,
    pub flags: CellFlags,
}

/// Largest grid coordinate (line or column) the geometry accepts. Together
/// with [`crate::geometry::MAX_DIM`] it keeps every pixel product within
/// `i64`.
pub const MAX_CELL: usize = 1048576;

/// Whether `c` carries the decoration `k`.
pub open spec fn flag_of(c: Cell, k: DecorationKind) -> bool {
    match k {
        DecorationKind::Underline => c.flags.underline,
        DecorationKind::Strikeout => c.flags.strikeout,
    }
}

/// Executable twin of [`flag_of`].
pub fn has_flag(c: &Cell, k: DecorationKind) -> (r: bool)
    ensures
        r == flag_of(*c, k),
{
    match k {
        DecorationKind::Underline => c.flags.underline,
        DecorationKind::Strikeout => c.flags.strikeout,
    }
}

/// The cell's coordinates are small enough for the geometry arithmetic.
pub open spec fn cell_ok(c: Cell) -> bool {
    c.line <= MAX_CELL && c.column <= MAX_CELL
}

/// Executable twin of [`cell_ok`], for callers that receive cells from an
/// unchecked source.
pub fn cell_in_bounds(c: &Cell) -> (r: bool)
    ensures
        r == cell_ok(*c),
{
    c.line <= MAX_CELL && c.column <= MAX_CELL
}

} // verus!
