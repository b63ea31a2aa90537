//! Tests of the run-merging machine: continuity, the three ways a run
//! breaks, flushing at finalization, and the injected-rectangle side
//! channel.

use rects::cell::{Cell, CellFlags, Rgb};
use rects::geometry::{Metrics, Rect, SizeInfo, SUBPX};
use rects::tracker::Rects;

fn px(v: i64) -> i64 {
    v * SUBPX
}

fn test_size() -> SizeInfo {
    SizeInfo { cell_width: px(8), cell_height: px(16), padding_x: px(2), padding_y: px(1) }
}

fn test_metrics() -> Metrics {
    Metrics {
        underline_position: px(1),
        underline_thickness: px(1),
        strikeout_position: px(4),
        strikeout_thickness: SUBPX / 2,
        descent: -px(2),
    }
}

fn tracker() -> Rects {
    Rects::new(test_metrics(), test_size())
}

fn underlined(line: usize, column: usize, fg: Rgb) -> Cell {
    Cell { line, column, fg, flags: CellFlags { underline: true, strikeout: false } }
}

fn plain(line: usize, column: usize, fg: Rgb) -> Cell {
    Cell { line, column, fg, flags: CellFlags { underline: false, strikeout: false } }
}

const FG: Rgb = Rgb { r: 10, g: 20, b: 30 };
const OTHER_FG: Rgb = Rgb { r: 40, g: 50, b: 60 };

// With test_size and test_metrics, an underline run on line 0 sits at
// y = 13px + 1px padding, 1px tall.
fn underline_rect_line0(start_col: i64, end_col: i64) -> Rect<i64> {
    Rect { x: px(start_col * 8 + 2), y: px(14), width: px((end_col - start_col + 1) * 8), height: px(1) }
}

#[test]
fn empty_pass_yields_nothing() {
    let out = tracker().rects();
    assert!(out.is_empty());
}

#[test]
fn undecorated_cells_yield_nothing() {
    let mut t = tracker();
    t.update_lines(&plain(0, 0, FG));
    t.update_lines(&plain(0, 1, FG));
    let out = t.rects();
    assert!(out.is_empty());
}

#[test]
fn run_continuity_single_rect() {
    // Columns 0..3, same line, flag and color: one rectangle four cells wide,
    // produced by the finalize flush.
    let mut t = tracker();
    for col in 0..4 {
        t.update_lines(&underlined(0, col, FG));
    }
    let out = t.rects();
    assert_eq!(out.len(), 1);
    assert_eq!(out[0], (underline_rect_line0(0, 3), FG));
    assert_eq!(out[0].0.width, 4 * test_size().cell_width);
}

#[test]
fn run_break_on_gap() {
    // Columns 2 and 4 on one line: the gap breaks the run into two
    // single-cell rectangles.
    let mut t = tracker();
    t.update_lines(&underlined(0, 2, FG));
    t.update_lines(&underlined(0, 4, FG));
    let out = t.rects();
    assert_eq!(out.len(), 2);
    assert_eq!(out[0], (underline_rect_line0(2, 2), FG));
    assert_eq!(out[1], (underline_rect_line0(4, 4), FG));
}

#[test]
fn run_break_on_line_change() {
    let mut t = tracker();
    t.update_lines(&underlined(0, 0, FG));
    t.update_lines(&underlined(1, 1, FG));
    let out = t.rects();
    assert_eq!(out.len(), 2);
    assert_eq!(out[0], (underline_rect_line0(0, 0), FG));
    // One line further down, the rectangle sits one cell height lower.
    let mut below = underline_rect_line0(1, 1);
    below.y += test_size().cell_height;
    assert_eq!(out[1], (below, FG));
}

#[test]
fn run_break_on_color_change() {
    // The color change closes the first rectangle and opens a new run at the
    // color-change cell, each rectangle keeping its own foreground.
    let mut t = tracker();
    t.update_lines(&underlined(0, 0, FG));
    t.update_lines(&underlined(0, 1, OTHER_FG));
    let out = t.rects();
    assert_eq!(out.len(), 2);
    assert_eq!(out[0], (underline_rect_line0(0, 0), FG));
    assert_eq!(out[1], (underline_rect_line0(1, 1), OTHER_FG));
}

#[test]
fn flush_on_finalize_uses_last_cell() {
    // A still-open run ends at the last processed cell.
    let mut t = tracker();
    t.update_lines(&underlined(0, 5, FG));
    t.update_lines(&underlined(0, 6, FG));
    t.update_lines(&underlined(0, 7, FG));
    let out = t.rects();
    assert_eq!(out.len(), 1);
    assert_eq!(out[0], (underline_rect_line0(5, 7), FG));
}

#[test]
fn append_independence() {
    // A rectangle injected while a run is open appears unmodified, at its
    // place of injection, between the rectangles the merge logic emits.
    let injected = Rect { x: 1, y: 2, width: 3, height: 4 };
    let injected_color = Rgb { r: 9, g: 9, b: 9 };
    let mut t = tracker();
    t.update_lines(&underlined(0, 0, FG));
    t.push(injected, injected_color);
    t.update_lines(&underlined(0, 2, FG));
    let out = t.rects();
    assert_eq!(out.len(), 3);
    assert_eq!(out[0], (injected, injected_color));
    assert_eq!(out[1], (underline_rect_line0(0, 0), FG));
    assert_eq!(out[2], (underline_rect_line0(2, 2), FG));
}

#[test]
fn both_flags_yield_two_rects() {
    // A cell underlined and struck out produces one rectangle per kind,
    // underline's first.
    let c = Cell { line: 0, column: 0, fg: FG, flags: CellFlags { underline: true, strikeout: true } };
    let mut t = tracker();
    t.update_lines(&c);
    let out = t.rects();
    assert_eq!(out.len(), 2);
    assert_eq!(out[0], (underline_rect_line0(0, 0), FG));
    // Strikeout: y = 14 - 4 - 0.5 = 9.5px, rounds to 10px, plus 1px padding.
    let strike = Rect { x: px(2), y: px(11), width: px(8), height: px(1) };
    assert_eq!(out[1], (strike, FG));
}

#[test]
fn flag_dropped_closes_run() {
    // The flag disappearing mid-line closes the run without opening another.
    let mut t = tracker();
    t.update_lines(&underlined(0, 0, FG));
    t.update_lines(&underlined(0, 1, FG));
    t.update_lines(&plain(0, 2, FG));
    let out = t.rects();
    assert_eq!(out.len(), 1);
    assert_eq!(out[0], (underline_rect_line0(0, 1), FG));
}
