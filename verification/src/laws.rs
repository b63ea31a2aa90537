//! The laws of the run-merging machine, stated over its ghost model and
//! proved for every input: run continuity, the three ways a run breaks,
//! flushing at finalization, and the independence of injected rectangles.

use vstd::prelude::*;

use crate::cell::{flag_of, Cell, DecorationKind, Rgb};
use crate::geometry::{rect_width, run_rect, Metrics, Rect, SizeInfo};
use crate::tracker::{flush_model, run_of, step_model, Model};

verus! {

/// The model of a freshly created tracker: nothing accumulated, all runs
/// closed, no cell seen.
pub open spec fn fresh_model() -> Model {
    Model {
        out: Seq::<(Rect<i64>, Rgb)>::empty(),
        underline: None::<Cell>,
        strikeout: None::<Cell>,
        last: None::<Cell>,
    }
}

/// The model after feeding `cells` to the machine one by one, starting
/// from `m`.
pub open spec fn steps(m: Model, metrics: Metrics, size: SizeInfo, cells: Seq<Cell>) -> Model
    decreases cells.len(),
{
    if cells.len() == 0 {
        m
    } else {
        step_model(steps(m, metrics, size, cells.drop_last()), metrics, size, cells.last())
    }
}

/// `c` carries the decoration `k` and no other.
pub open spec fn only_flag(c: Cell, k: DecorationKind) -> bool {
    &&& flag_of(c, k)
    &&& forall|j: DecorationKind| flag_of(c, j) ==> j == k
}

/// A homogeneous decorated span: every cell lies on the line of the first,
/// keeps its foreground color, carries exactly the decoration `k`, and the
/// columns are strictly consecutive from the first cell on.
pub open spec fn uniform_run(cells: Seq<Cell>, k: DecorationKind) -> bool {
    forall|i: int|
        0 <= i < cells.len() ==> {
            &&& (#[trigger] cells[i]).line == cells[0].line
            &&& cells[i].fg == cells[0].fg
            &&& only_flag(cells[i], k)
            &&& cells[i].column == cells[0].column + i
        }
}

/// The model with a single open run of kind `k` started at `start`, nothing
/// accumulated, and `lc` as the last cell seen.
spec fn single_open(k: DecorationKind, start: Cell, lc: Cell) -> Model {
    Model {
        out: Seq::<(Rect<i64>, Rgb)>::empty(),
        underline: if k == DecorationKind::Underline {
            Some(start)
        } else {
            None
        },
        strikeout: if k == DecorationKind::Strikeout {
            Some(start)
        } else {
            None
        },
        last: Some(lc),
    }
}

/// Feeding a homogeneous span to a fresh machine opens one run at its first
/// cell and emits nothing.
proof fn lemma_uniform_steps(metrics: Metrics, size: SizeInfo, cells: Seq<Cell>, k: DecorationKind)
    requires
        cells.len() >= 1,
        uniform_run(cells, k),
    ensures
        steps(fresh_model(), metrics, size, cells) == single_open(k, cells[0], cells.last()),
    decreases cells.len(),
{
    let m = steps(fresh_model(), metrics, size, cells);
    if cells.len() == 1 {
        assert(cells.drop_last().len() == 0);
        assert(steps(fresh_model(), metrics, size, cells.drop_last()) == fresh_model());
        assert(m == step_model(fresh_model(), metrics, size, cells[0]));
        assert(flag_of(cells[0], DecorationKind::Underline) <==> k == DecorationKind::Underline);
        assert(flag_of(cells[0], DecorationKind::Strikeout) <==> k == DecorationKind::Strikeout);
        assert(m.out =~= Seq::<(Rect<i64>, Rgb)>::empty());
        assert(m =~= single_open(k, cells[0], cells.last()));
    } else {
        let head = cells.drop_last();
        let n = cells.len() - 1;
        assert(head[0] == cells[0]);
        assert(forall|i: int| 0 <= i < head.len() ==> #[trigger] head[i] == cells[i]);
        assert(uniform_run(head, k));
        lemma_uniform_steps(metrics, size, head, k);
        let prev = steps(fresh_model(), metrics, size, head);
        assert(prev == single_open(k, cells[0], cells[n - 1]));
        let c = cells.last();
        assert(c == cells[n]);
        assert(c.column == cells[n - 1].column + 1);
        assert(flag_of(c, DecorationKind::Underline) <==> k == DecorationKind::Underline);
        assert(flag_of(c, DecorationKind::Strikeout) <==> k == DecorationKind::Strikeout);
        assert(m == step_model(prev, metrics, size, c));
        assert(m.out =~= Seq::<(Rect<i64>, Rgb)>::empty());
        assert(m =~= single_open(k, cells[0], cells.last()));
    }
}

/// Run continuity: a homogeneous, column-consecutive decorated span fed to a
/// fresh machine produces, after finalization, exactly one rectangle -- the
/// one spanning from its first to its last column -- whatever the span's
/// length. Its width covers one cell width per cell of the span.
pub proof fn lemma_run_continuity(
    metrics: Metrics,
    size: SizeInfo,
    cells: Seq<Cell>,
    k: DecorationKind,
)
    requires
        cells.len() >= 1,
        uniform_run(cells, k),
    ensures
        flush_model(steps(fresh_model(), metrics, size, cells), metrics, size) == seq![
            run_rect(cells[0], cells.last(), k, metrics, size),
        ],
        rect_width(cells[0], cells.last(), size) == cells.len() * (size.cell_width as int),
{
    lemma_uniform_steps(metrics, size, cells, k);
    let m = steps(fresh_model(), metrics, size, cells);
    assert(flush_model(m, metrics, size) =~= seq![
        run_rect(cells[0], cells.last(), k, metrics, size),
    ]);
    let c0 = cells[0].column as int;
    let n = cells.len();
    assert(cells.last().column as int == c0 + n - 1);
    assert((c0 + n) * (size.cell_width as int) - c0 * (size.cell_width as int) == n * (
    size.cell_width as int)) by (nonlinear_arith);
}

/// The model after feeding exactly two cells to a fresh machine.
proof fn lemma_two_steps(metrics: Metrics, size: SizeInfo, a: Cell, b: Cell)
    ensures
        steps(fresh_model(), metrics, size, seq![a, b]) == step_model(
            step_model(fresh_model(), metrics, size, a),
            metrics,
            size,
            b,
        ),
{
    let two = seq![a, b];
    assert(two.drop_last() =~= seq![a]);
    assert(two.last() == b);
    let one = seq![a];
    assert(one.drop_last() =~= Seq::<Cell>::empty());
    assert(one.last() == a);
    assert(steps(fresh_model(), metrics, size, Seq::<Cell>::empty()) == fresh_model());
    assert(steps(fresh_model(), metrics, size, one) == step_model(
        fresh_model(),
        metrics,
        size,
        a,
    ));
    assert(steps(fresh_model(), metrics, size, two) == step_model(
        steps(fresh_model(), metrics, size, one),
        metrics,
        size,
        b,
    ));
}

/// Two cells that both carry exactly `k` but do not merge: each yields its
/// own single-cell rectangle, and the machine reopens at the second cell.
proof fn lemma_two_cell_break(metrics: Metrics, size: SizeInfo, a: Cell, b: Cell, k: DecorationKind)
    requires
        only_flag(a, k),
        only_flag(b, k),
        !(b.line == a.line && b.fg == a.fg && b.column == a.column + 1),
    ensures
        run_of(steps(fresh_model(), metrics, size, seq![a, b]), k) == Some(b),
        flush_model(steps(fresh_model(), metrics, size, seq![a, b]), metrics, size) == seq![
            run_rect(a, a, k, metrics, size),
            run_rect(b, b, k, metrics, size),
        ],
{
    lemma_two_steps(metrics, size, a, b);
    assert(flag_of(a, DecorationKind::Underline) <==> k == DecorationKind::Underline);
    assert(flag_of(a, DecorationKind::Strikeout) <==> k == DecorationKind::Strikeout);
    assert(flag_of(b, DecorationKind::Underline) <==> k == DecorationKind::Underline);
    assert(flag_of(b, DecorationKind::Strikeout) <==> k == DecorationKind::Strikeout);
    let m1 = step_model(fresh_model(), metrics, size, a);
    assert(m1.out =~= Seq::<(Rect<i64>, Rgb)>::empty());
    let m2 = step_model(m1, metrics, size, b);
    assert(m2.out =~= seq![run_rect(a, a, k, metrics, size)]);
    assert(flush_model(m2, metrics, size) =~= seq![
        run_rect(a, a, k, metrics, size),
        run_rect(b, b, k, metrics, size),
    ]);
}

/// Run break on gap: two cells on the same line with the same flag and
/// color, but with a column gap between them, never merge -- each yields its
/// own single-cell rectangle.
pub proof fn lemma_run_break_on_gap(
    metrics: Metrics,
    size: SizeInfo,
    a: Cell,
    b: Cell,
    k: DecorationKind,
)
    requires
        only_flag(a, k),
        only_flag(b, k),
        b.line == a.line,
        b.fg == a.fg,
        b.column != a.column + 1,
    ensures
        flush_model(steps(fresh_model(), metrics, size, seq![a, b]), metrics, size) == seq![
            run_rect(a, a, k, metrics, size),
            run_rect(b, b, k, metrics, size),
        ],
{
    lemma_two_cell_break(metrics, size, a, b, k);
}

/// Run break on line change: identically flagged and colored cells on
/// different lines never merge.
pub proof fn lemma_run_break_on_line_change(
    metrics: Metrics,
    size: SizeInfo,
    a: Cell,
    b: Cell,
    k: DecorationKind,
)
    requires
        only_flag(a, k),
        only_flag(b, k),
        b.line != a.line,
    ensures
        flush_model(steps(fresh_model(), metrics, size, seq![a, b]), metrics, size) == seq![
            run_rect(a, a, k, metrics, size),
            run_rect(b, b, k, metrics, size),
        ],
{
    lemma_two_cell_break(metrics, size, a, b, k);
}

/// Run break on color change: a color change mid-run closes the current
/// rectangle and, the flag still being set, opens a new run starting at the
/// color-change cell.
pub proof fn lemma_run_break_on_color_change(
    metrics: Metrics,
    size: SizeInfo,
    a: Cell,
    b: Cell,
    k: DecorationKind,
)
    requires
        only_flag(a, k),
        only_flag(b, k),
        b.line == a.line,
        b.column == a.column + 1,
        b.fg != a.fg,
    ensures
        run_of(steps(fresh_model(), metrics, size, seq![a, b]), k) == Some(b),
        flush_model(steps(fresh_model(), metrics, size, seq![a, b]), metrics, size) == seq![
            run_rect(a, a, k, metrics, size),
            run_rect(b, b, k, metrics, size),
        ],
{
    lemma_two_cell_break(metrics, size, a, b, k);
}

/// Flush on finalize: an open run at stream end still produces its
/// rectangle, ended at the last processed cell.
pub proof fn lemma_flush_on_finalize(
    m: Model,
    metrics: Metrics,
    size: SizeInfo,
    k: DecorationKind,
    start: Cell,
    lc: Cell,
)
    requires
        run_of(m, k) == Some(start),
        m.last == Some(lc),
    ensures
        flush_model(m, metrics, size).contains(run_rect(start, lc, k, metrics, size)),
{
    let fm = flush_model(m, metrics, size);
    match k {
        DecorationKind::Underline => {
            assert(fm[m.out.len() as int] == run_rect(start, lc, k, metrics, size));
        },
        DecorationKind::Strikeout => {
            let i = m.out.len() + match m.underline {
                Some(_) => 1int,
                None => 0int,
            };
            assert(fm[i] == run_rect(start, lc, k, metrics, size));
        },
    }
}

/// Whatever cells are fed afterwards, the machine only ever appends to its
/// output: everything already accumulated stays in place, unmodified.
proof fn lemma_steps_extends_out(m: Model, metrics: Metrics, size: SizeInfo, cells: Seq<Cell>)
    ensures
        steps(m, metrics, size, cells).out.len() >= m.out.len(),
        forall|i: int|
            0 <= i < m.out.len() ==> steps(m, metrics, size, cells).out[i] == m.out[i],
    decreases cells.len(),
{
    if cells.len() > 0 {
        lemma_steps_extends_out(m, metrics, size, cells.drop_last());
    }
}

/// Append independence: a rectangle injected past the merge logic appears in
/// the final output unmodified, at its place of injection, unaffected by the
/// runs open at that moment and by everything processed or flushed
/// afterwards.
pub proof fn lemma_append_independence(
    m: Model,
    metrics: Metrics,
    size: SizeInfo,
    rect: Rect<i64>,
    color: Rgb,
    cells: Seq<Cell>,
)
    ensures
        ({
            let pushed = Model {
                out: m.out.push((rect, color)),
                underline: m.underline,
                strikeout: m.strikeout,
                last: m.last,
            };
            let fin = flush_model(steps(pushed, metrics, size, cells), metrics, size);
            &&& m.out.len() < fin.len()
            &&& fin[m.out.len() as int] == (rect, color)
        }),
{
    let pushed = Model {
        out: m.out.push((rect, color)),
        underline: m.underline,
        strikeout: m.strikeout,
        last: m.last,
    };
    lemma_steps_extends_out(pushed, metrics, size, cells);
    let after = steps(pushed, metrics, size, cells);
    assert(pushed.out[m.out.len() as int] == (rect, color));
    assert(after.out[m.out.len() as int] == (rect, color));
    let fin = flush_model(after, metrics, size);
    assert(fin[m.out.len() as int] == (rect, color));
}

} // verus!
