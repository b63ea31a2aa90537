//! Pure geometry: mapping a closed decoration run to a pixel-space rectangle.
//!
//! All lengths and coordinates are fixed-point values counted in subpixel
//! units of 1/65536 px. Horizontal extent is kept at full subpixel accuracy,
//! while the stroke's vertical position and its thickness are snapped to
//! whole pixels, rounding halves away from zero.

use vstd::arithmetic::div_mod::{lemma_fundamental_div_mod, lemma_mod_bound};
use vstd::prelude::*;

use crate::cell::{cell_ok, Cell, DecorationKind, Rgb};

verus! {

/// Number of subpixel units in one pixel.
pub const SUBPX: i64 = 65536;

/// Half of [`SUBPX`]; the tie point of round-to-nearest.
pub const SUBPX_HALF: i64 = 32768;

/// Largest magnitude, in subpixel units, accepted for a single metric or
/// size value. Together with [`crate::cell::MAX_CELL`] it keeps every
/// intermediate product within `i64`.
pub const MAX_DIM: i64 = 1073741824;

/// Largest magnitude a value handed to [`round_px`] may have.
pub const MAX_SUB: i64 = 36028797018963968;

/// An axis-aligned filled rectangle. The coordinate type is generic: the
/// verified pipeline produces `Rect<i64>` in subpixel units, and consumers
/// may convert into their own scalar type.
#[derive(Debug, Clone, Copy, PartialEq, Eq)]
pub struct Rect<T> {
    pub x: T,
    pub y: T,
    pub width: T,
    pub height: T,
}

impl<T> Rect<T> {
    /// Pack the four coordinates into a rectangle.
    pub fn new(x: T, y: T, width: T, height: T) -> (r: Rect<T>)
        ensures
            r.x == x,
            r.y == y,
            r.width == width,
            r.height == height,
    {
        Rect { x, y, width, height }
    }
}

/// Font metric values, in subpixel units. `descent` is the (usually
/// negative) distance from a cell's bottom edge up to the text baseline;
/// each `position` is the distance from the baseline up to the center of the
/// stroke; each `thickness` is the stroke height.
#[derive(Debug, Clone, Copy, PartialEq, Eq, Structural)]
pub struct Metrics {
    pub underline_position: i64,
    pub underline_thickness: i64,
    pub strikeout_position: i64,
    pub strikeout_thickness: i64,
    pub descent: i64,
}

/// Grid cell geometry, in subpixel units: the size of one cell and the
/// padding between the window origin and the grid origin.
#[derive(Debug, Clone, Copy, PartialEq, Eq, Structural)]
pub struct SizeInfo {
    pub cell_width: i64,
    pub cell_height: i64,
    pub padding_x: i64,
    pub padding_y: i64,
}

/// Every metric value is small enough for the geometry arithmetic.
pub open spec fn metrics_ok(m: Metrics) -> bool {
    &&& -MAX_DIM <= m.underline_position <= MAX_DIM
    &&& -MAX_DIM <= m.underline_thickness <= MAX_DIM
    &&& -MAX_DIM <= m.strikeout_position <= MAX_DIM
    &&& -MAX_DIM <= m.strikeout_thickness <= MAX_DIM
    &&& -MAX_DIM <= m.descent <= MAX_DIM
}

/// Cell sizes are non-negative and, like the paddings, small enough for the
/// geometry arithmetic.
pub open spec fn size_ok(s: SizeInfo) -> bool {
    &&& 0 <= s.cell_width <= MAX_DIM
    &&& 0 <= s.cell_height <= MAX_DIM
    &&& -MAX_DIM <= s.padding_x <= MAX_DIM
    &&& -MAX_DIM <= s.padding_y <= MAX_DIM
}

/// Executable twin of [`metrics_ok`].
pub fn metrics_in_bounds(m: &Metrics) -> (r: bool)
    ensures
        r == metrics_ok(*m),
{
    -MAX_DIM <= m.underline_position && m.underline_position <= MAX_DIM
        && -MAX_DIM <= m.underline_thickness && m.underline_thickness <= MAX_DIM
        && -MAX_DIM <= m.strikeout_position && m.strikeout_position <= MAX_DIM
        && -MAX_DIM <= m.strikeout_thickness && m.strikeout_thickness <= MAX_DIM
        && -MAX_DIM <= m.descent && m.descent <= MAX_DIM
}

/// Executable twin of [`size_ok`].
pub fn size_in_bounds(s: &SizeInfo) -> (r: bool)
    ensures
        r == size_ok(*s),
{
    0 <= s.cell_width && s.cell_width <= MAX_DIM
        && 0 <= s.cell_height && s.cell_height <= MAX_DIM
        && -MAX_DIM <= s.padding_x && s.padding_x <= MAX_DIM
        && -MAX_DIM <= s.padding_y && s.padding_y <= MAX_DIM
}

/// Round a subpixel value to the nearest whole number of pixels, halves
/// away from zero -- the rounding convention of the renderer.
pub open spec fn round_to_px(v: int) -> int {
    if v >= 0 {
        (v + SUBPX_HALF as int) / (SUBPX as int)
    } else {
        -((-v + SUBPX_HALF as int) / (SUBPX as int))
    }
}

/// The rounded value, scaled back to subpixels, stays within one pixel of
/// the bound on its input.
pub proof fn lemma_round_to_px_mag(v: int, b: int)
    requires
        -b <= v <= b,
        0 <= b,
    ensures
        -(b + SUBPX as int) <= round_to_px(v) * (SUBPX as int) <= b + SUBPX as int,
{
    let p = SUBPX as int;
    let h = SUBPX_HALF as int;
    if v >= 0 {
        let q = (v + h) / p;
        lemma_fundamental_div_mod(v + h, p);
        lemma_mod_bound(v + h, p);
        assert(q * p == (v + h) - (v + h) % p);
    } else {
        let q = (-v + h) / p;
        lemma_fundamental_div_mod(-v + h, p);
        lemma_mod_bound(-v + h, p);
        assert(q * p == (-v + h) - (-v + h) % p);
        assert(round_to_px(v) * p == -(q * p));
    }
}

/// Executable rounding to the nearest pixel, halves away from zero.
pub fn round_px(v: i64) -> (r: i64)
    requires
        -MAX_SUB <= v <= MAX_SUB,
    ensures
        r == round_to_px(v as int),
{
    if v >= 0 {
        (((v as u64) + (SUBPX_HALF as u64)) / (SUBPX as u64)) as i64
    } else {
        let neg: i64 = -v;
        let q: i64 = (((neg as u64) + (SUBPX_HALF as u64)) / (SUBPX as u64)) as i64;
        -q
    }
}

/// Distance from the baseline up to the stroke center for decoration `k`.
pub open spec fn metric_position(k: DecorationKind, m: Metrics) -> int {
    match k {
        DecorationKind::Underline => m.underline_position as int,
        DecorationKind::Strikeout => m.strikeout_position as int,
    }
}

/// Raw stroke thickness for decoration `k`, before the minimum is applied.
pub open spec fn metric_thickness(k: DecorationKind, m: Metrics) -> int {
    match k {
        DecorationKind::Underline => m.underline_thickness as int,
        DecorationKind::Strikeout => m.strikeout_thickness as int,
    }
}

/// Thickness actually drawn: never thinner than one pixel, so every
/// decoration stays visible.
pub open spec fn stroke_thickness(k: DecorationKind, m: Metrics) -> int {
    if metric_thickness(k, m) >= SUBPX as int {
        metric_thickness(k, m)
    } else {
        SUBPX as int
    }
}

/// Left edge of the run's first cell, before padding.
pub open spec fn start_x(start: Cell, s: SizeInfo) -> int {
    (start.column as int) * (s.cell_width as int)
}

/// Output x coordinate: the left edge of the first cell, shifted by the
/// window padding. Kept at full subpixel accuracy.
pub open spec fn rect_x(start: Cell, s: SizeInfo) -> int {
    start_x(start, s) + s.padding_x as int
}

/// Output width: from the left edge of `start` to the right edge of `end`.
/// Kept at full subpixel accuracy.
pub open spec fn rect_width(start: Cell, end: Cell, s: SizeInfo) -> int {
    (end.column as int + 1) * (s.cell_width as int) - start_x(start, s)
}

/// Bottom edge of the run's row.
pub open spec fn cell_bottom(start: Cell, s: SizeInfo) -> int {
    (start.line as int + 1) * (s.cell_height as int)
}

/// Text baseline of the run's row: the cell bottom shifted by the font
/// descent.
pub open spec fn baseline(start: Cell, m: Metrics, s: SizeInfo) -> int {
    cell_bottom(start, s) + m.descent as int
}

/// Top edge of the stroke before clamping: the metric position measures to
/// the stroke center, so half the thickness is taken off.
pub open spec fn raw_y(start: Cell, k: DecorationKind, m: Metrics, s: SizeInfo) -> int {
    baseline(start, m, s) - metric_position(k, m) - stroke_thickness(k, m) / 2
}

/// Largest top edge that keeps the stroke inside its own cell row.
pub open spec fn max_y(start: Cell, k: DecorationKind, m: Metrics, s: SizeInfo) -> int {
    cell_bottom(start, s) - stroke_thickness(k, m)
}

/// Top edge of the stroke, clamped so it never spills below its cell row.
pub open spec fn clamped_y(start: Cell, k: DecorationKind, m: Metrics, s: SizeInfo) -> int {
    if raw_y(start, k, m, s) > max_y(start, k, m, s) {
        max_y(start, k, m, s)
    } else {
        raw_y(start, k, m, s)
    }
}

/// Output y coordinate: the clamped top edge snapped to a whole pixel, then
/// shifted by the window padding.
pub open spec fn rect_y(start: Cell, k: DecorationKind, m: Metrics, s: SizeInfo) -> int {
    round_to_px(clamped_y(start, k, m, s)) * (SUBPX as int) + s.padding_y as int
}

/// Output height: the effective thickness snapped to a whole pixel.
pub open spec fn rect_height(k: DecorationKind, m: Metrics) -> int {
    round_to_px(stroke_thickness(k, m)) * (SUBPX as int)
}

/// The rectangle and fill color emitted for a closed run of decoration `k`
/// beginning at `start` and ending at `end`, under metrics `m` and grid
/// geometry `s`. The color is the run's start-cell foreground, which the
/// continuation rule makes equal to every cell's foreground across the run.
pub open spec fn run_rect(start: Cell, end: Cell, k: DecorationKind, m: Metrics, s: SizeInfo) -> (
    Rect<i64>,
    Rgb,
) {
    (
        Rect {
            x: rect_x(start, s) as i64,
            y: rect_y(start, k, m, s) as i64,
            width: rect_width(start, end, s) as i64,
            height: rect_height(k, m) as i64,
        },
        start.fg,
    )
}

/// Map a closed run to its rectangle and fill color.
///
/// The rectangle starts at the left edge of `start`, ends at the right edge
/// of `end`, and is placed vertically from the metric pair of `kind`: the
/// stroke is centered on `baseline - position`, never drawn thinner than one
/// pixel, and clamped so it never spills below the run's cell row. `y` and
/// `height` are snapped to whole pixels; `x` and `width` keep subpixel
/// accuracy.
pub fn create_rect(
    start: &Cell,
    end: &Cell,
    kind: DecorationKind,
    metrics: &Metrics,
    size: &SizeInfo,
) -> (r: (Rect<i64>, Rgb))
    requires
        cell_ok(*start),
        cell_ok(*end),
        metrics_ok(*metrics),
        size_ok(*size),
    ensures
        r == run_rect(*start, *end, kind, *metrics, *size),
        r.0.x as int == rect_x(*start, *size),
        r.0.y as int == rect_y(*start, kind, *metrics, *size),
        r.0.width as int == rect_width(*start, *end, *size),
        r.0.height as int == rect_height(kind, *metrics),
        r.1 == start.fg,
{
    let col_start: i64 = start.column as i64;
    let col_end: i64 = end.column as i64;
    let row: i64 = start.line as i64;

    proof {
        assert((col_start as int) * (size.cell_width as int) <= 1048576int * 1073741824int
            && 0 <= (col_start as int) * (size.cell_width as int)) by (nonlinear_arith)
            requires
                0 <= col_start as int <= 1048576,
                0 <= size.cell_width as int <= 1073741824,
        ;
        assert((col_end as int + 1) * (size.cell_width as int) <= 1048577int * 1073741824int
            && 0 <= (col_end as int + 1) * (size.cell_width as int)) by (nonlinear_arith)
            requires
                0 <= col_end as int <= 1048576,
                0 <= size.cell_width as int <= 1073741824,
        ;
        assert((row as int + 1) * (size.cell_height as int) <= 1048577int * 1073741824int
            && 0 <= (row as int + 1) * (size.cell_height as int)) by (nonlinear_arith)
            requires
                0 <= row as int <= 1048576,
                0 <= size.cell_height as int <= 1073741824,
        ;
    }

    let left: i64 = col_start * size.cell_width;
    let right: i64 = (col_end + 1) * size.cell_width;
    let width: i64 = right - left;

    let (position, raw_thickness): (i64, i64) = match kind {
        DecorationKind::Underline => (metrics.underline_position, metrics.underline_thickness),
        DecorationKind::Strikeout => (metrics.strikeout_position, metrics.strikeout_thickness),
    };
    let thickness: i64 = if raw_thickness >= SUBPX {
        raw_thickness
    } else {
        SUBPX
    };

    let bottom: i64 = (row + 1) * size.cell_height;
    let base: i64 = bottom + metrics.descent;

    let half_thickness: i64 = ((thickness as u64) / 2) as i64;
    let mut y: i64 = base - position - half_thickness;
    let y_limit: i64 = bottom - thickness;
    if y > y_limit {
        y = y_limit;
    }

    proof {
        lemma_round_to_px_mag(y as int, 1152921504606846976);
        lemma_round_to_px_mag(thickness as int, 1152921504606846976);
    }
    let y_out: i64 = round_px(y) * SUBPX + size.padding_y;
    let height: i64 = round_px(thickness) * SUBPX;
    let x: i64 = left + size.padding_x;

    (Rect::new(x, y_out, width, height), start.fg)
}

/// Minimum thickness: a decoration whose metric thickness is at most one
/// pixel is drawn exactly one pixel tall.
pub proof fn lemma_minimum_thickness(k: DecorationKind, m: Metrics)
    requires
        metric_thickness(k, m) <= SUBPX as int,
    ensures
        rect_height(k, m) == SUBPX as int,
{
    assert(stroke_thickness(k, m) == SUBPX as int);
    assert((SUBPX as int + SUBPX_HALF as int) / (SUBPX as int) == 1);
}

/// Clamp near the cell bottom: whenever the unclamped stroke top would spill
/// below the cell row, the emitted y is computed from the clamped position
/// `cell_bottom - thickness` instead.
pub proof fn lemma_clamp_near_cell_bottom(start: Cell, k: DecorationKind, m: Metrics, s: SizeInfo)
    requires
        raw_y(start, k, m, s) > max_y(start, k, m, s),
    ensures
        rect_y(start, k, m, s) == round_to_px(max_y(start, k, m, s)) * (SUBPX as int)
            + s.padding_y as int,
{
}

/// Idempotence of the mapping: the emitted rectangle and color are a pure
/// function of the run and the metrics, so two mappings of identical inputs
/// are identical.
pub proof fn lemma_mapping_deterministic(
    a: (Rect<i64>, Rgb),
    b: (Rect<i64>, Rgb),
    start: Cell,
    end: Cell,
    k: DecorationKind,
    m: Metrics,
    s: SizeInfo,
)
    requires
        a == run_rect(start, end, k, m, s),
        b == run_rect(start, end, k, m, s),
    ensures
        a == b,
{
}

} // verus!
