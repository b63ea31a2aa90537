//! Tests of the geometry mapping: exact pixel values, minimum thickness,
//! clamping near the cell bottom, and idempotence.

use rects::cell::{Cell, CellFlags, DecorationKind, Rgb};
use rects::geometry::{create_rect, Metrics, Rect, SizeInfo, SUBPX};

fn px(v: i64) -> i64 {
    v * SUBPX
}

fn test_size() -> SizeInfo {
    SizeInfo { cell_width: px(8), cell_height: px(16), padding_x: px(2), padding_y: px(1) }
}

fn test_metrics() -> Metrics {
    Metrics {
        underline_position: px(1),
        underline_thickness: px(1),
        strikeout_position: px(4),
        strikeout_thickness: SUBPX / 2,
        descent: -px(2),
    }
}

fn cell(line: usize, column: usize, fg: Rgb, underline: bool, strikeout: bool) -> Cell {
    Cell { line, column, fg, flags: CellFlags { underline, strikeout } }
}

const FG: Rgb = Rgb { r: 10, g: 20, b: 30 };

#[test]
fn rect_new_packs_fields() {
    let r: Rect<i64> = Rect::new(1, 2, 3, 4);
    assert_eq!(r.x, 1);
    assert_eq!(r.y, 2);
    assert_eq!(r.width, 3);
    assert_eq!(r.height, 4);
}

#[test]
fn underline_rect_exact_values() {
    // baseline = 16px - 2px = 14px; y = 14 - 1 - 0.5 = 12.5px, rounds to 13px.
    let start = cell(0, 2, FG, true, false);
    let end = cell(0, 4, FG, true, false);
    let (r, color) =
        create_rect(&start, &end, DecorationKind::Underline, &test_metrics(), &test_size());
    assert_eq!(r.x, px(2 * 8 + 2));
    assert_eq!(r.width, px(3 * 8));
    assert_eq!(r.y, px(13 + 1));
    assert_eq!(r.height, px(1));
    assert_eq!(color, FG);
}

#[test]
fn strikeout_rect_exact_values() {
    // Thickness 0.5px is raised to 1px; y = 14 - 4 - 0.5 = 9.5px, rounds to 10px.
    let start = cell(0, 0, FG, false, true);
    let end = cell(0, 0, FG, false, true);
    let (r, color) =
        create_rect(&start, &end, DecorationKind::Strikeout, &test_metrics(), &test_size());
    assert_eq!(r.x, px(2));
    assert_eq!(r.width, px(8));
    assert_eq!(r.y, px(10 + 1));
    assert_eq!(r.height, px(1));
    assert_eq!(color, FG);
}

#[test]
fn minimum_thickness_clamps_to_one_pixel() {
    // A metric thickness of 0.3px must render one pixel tall.
    let mut metrics = test_metrics();
    metrics.underline_thickness = 19661;  // 0.3 * 65536, rounded
    let start = cell(0, 0, FG, true, false);
    let (r, _) = create_rect(&start, &start, DecorationKind::Underline, &metrics, &test_size());
    assert_eq!(r.height, px(1));
}

#[test]
fn zero_thickness_clamps_to_one_pixel() {
    let mut metrics = test_metrics();
    metrics.underline_thickness = 0;
    let start = cell(0, 0, FG, true, false);
    let (r, _) = create_rect(&start, &start, DecorationKind::Underline, &metrics, &test_size());
    assert_eq!(r.height, px(1));
}

#[test]
fn clamp_near_cell_bottom() {
    // position -4px puts the stroke 4px below the baseline: unclamped
    // y = 16 + 4 - 0.5 = 19.5px, past max_y = 16 - 1 = 15px, so the
    // emitted y is round(15px) + padding_y.
    let mut metrics = test_metrics();
    metrics.underline_position = -px(4);
    metrics.descent = 0;
    let start = cell(0, 0, FG, true, false);
    let (r, _) = create_rect(&start, &start, DecorationKind::Underline, &metrics, &test_size());
    assert_eq!(r.y, px(15 + 1));
    assert_eq!(r.height, px(1));
}

#[test]
fn mapping_is_idempotent() {
    let start = cell(3, 5, FG, true, false);
    let end = cell(3, 9, FG, true, false);
    let first =
        create_rect(&start, &end, DecorationKind::Underline, &test_metrics(), &test_size());
    let second =
        create_rect(&start, &end, DecorationKind::Underline, &test_metrics(), &test_size());
    assert_eq!(first, second);
}
