//! The run-merging accumulator: ingests cells in traversal order, keeps at
//! most one open run per decoration kind, and emits one rectangle per run as
//! runs close. A side channel lets callers inject unrelated rectangles into
//! the same output batch, bypassing the merge logic.

use vstd::prelude::*;

use crate::cell::{cell_ok, flag_of, has_flag, Cell, DecorationKind, Rgb};
use crate::geometry::{
    create_rect, metrics_ok, run_rect, size_ok, Metrics, Rect, SizeInfo,
};

verus! {

/// Ghost model of the tracker: the rectangles accumulated so far, the open
/// run (its start cell) of each decoration kind, and the last cell
/// processed.
#[verifier::ext_equal]
pub ghost struct Model {
    pub out: Seq<(Rect<i64>, Rgb)>,
    pub underline: Option<Cell>,
    pub strikeout: Option<Cell>,
    pub last: Option<Cell>,
}

/// The open run of kind `k` in model `m`.
pub open spec fn run_of(m: Model, k: DecorationKind) -> Option<Cell> {
    match k {
        DecorationKind::Underline => m.underline,
        DecorationKind::Strikeout => m.strikeout,
    }
}

/// The continuation test of the run-merging machine: `cell` extends the open
/// run of kind `k` started at `start` exactly when it lies on the same line,
/// still carries the flag, keeps the same foreground color, and sits in the
/// column immediately after the most recently processed cell `last`.
pub open spec fn continues(start: Cell, last: Cell, cell: Cell, k: DecorationKind) -> bool {
    &&& cell.line == start.line
    &&& flag_of(cell, k)
    &&& cell.fg == start.fg
    &&& cell.column == last.column + 1
}

/// The open run of one kind after processing `cell`: an open run that the
/// cell continues stays open unchanged; otherwise the run closes and a new
/// one opens at `cell` exactly when `cell` carries the flag.
pub open spec fn next_run(
    prev: Option<Cell>,
    last: Option<Cell>,
    cell: Cell,
    k: DecorationKind,
) -> Option<Cell> {
    match (prev, last) {
        (Some(start), Some(lc)) => if continues(start, lc, cell, k) {
            Some(start)
        } else if flag_of(cell, k) {
            Some(cell)
        } else {
            None
        },
        _ => if flag_of(cell, k) {
            Some(cell)
        } else {
            None
        },
    }
}

/// The rectangles one kind emits while processing `cell`: exactly one, for
/// the run that just closed, ending at the most recently processed cell;
/// none when there was no open run or the cell continues it.
pub open spec fn step_emit(
    prev: Option<Cell>,
    last: Option<Cell>,
    cell: Cell,
    k: DecorationKind,
    m: Metrics,
    s: SizeInfo,
) -> Seq<(Rect<i64>, Rgb)> {
    match (prev, last) {
        (Some(start), Some(lc)) => if continues(start, lc, cell, k) {
            Seq::empty()
        } else {
            seq![run_rect(start, lc, k, m, s)]
        },
        _ => Seq::empty(),
    }
}

/// The whole transition of one `update_lines` call: each kind advances
/// independently (underline's rectangle, if any, precedes strikeout's), and
/// the last cell seen becomes `cell`.
pub open spec fn step_model(m: Model, metrics: Metrics, size: SizeInfo, cell: Cell) -> Model {
    Model {
        out: m.out + step_emit(m.underline, m.last, cell, DecorationKind::Underline, metrics, size)
            + step_emit(m.strikeout, m.last, cell, DecorationKind::Strikeout, metrics, size),
        underline: next_run(m.underline, m.last, cell, DecorationKind::Underline),
        strikeout: next_run(m.strikeout, m.last, cell, DecorationKind::Strikeout),
        last: Some(cell),
    }
}

/// The rectangle one kind emits at finalization: its still-open run, ended
/// at the last cell processed.
pub open spec fn flush_emit(
    run: Option<Cell>,
    last: Option<Cell>,
    k: DecorationKind,
    m: Metrics,
    s: SizeInfo,
) -> Seq<(Rect<i64>, Rgb)> {
    match (run, last) {
        (Some(start), Some(lc)) => seq![run_rect(start, lc, k, m, s)],
        _ => Seq::empty(),
    }
}

/// The final output of a pass: everything accumulated so far, followed by
/// the rectangle of each still-open run (underline's before strikeout's).
pub open spec fn flush_model(m: Model, metrics: Metrics, size: SizeInfo) -> Seq<
    (Rect<i64>, Rgb),
> {
    m.out + flush_emit(m.underline, m.last, DecorationKind::Underline, metrics, size)
        + flush_emit(m.strikeout, m.last, DecorationKind::Strikeout, metrics, size)
}

/// Invariants of the tracker state: every remembered cell is within the
/// geometry bounds, a run can only be open once a cell has been processed,
/// and an open run never spans lines -- its start lies on the line of the
/// last cell seen.
pub open spec fn model_wf(m: Model) -> bool {
    &&& (m.last matches Some(lc) ==> cell_ok(lc))
    &&& (m.underline matches Some(start) ==> {
        &&& cell_ok(start)
        &&& m.last matches Some(lc) && start.line == lc.line
    })
    &&& (m.strikeout matches Some(start) ==> {
        &&& cell_ok(start)
        &&& m.last matches Some(lc) && start.line == lc.line
    })
}

/// Accumulator for the decoration rectangles of one rendering pass.
///
/// Create it fresh for the pass, call [`Rects::update_lines`] once per cell
/// in traversal order, optionally inject extra rectangles with
/// [`Rects::push`], and consume it once with [`Rects::rects`].
pub struct Rects {
    pub inner: Vec<(Rect<i64>, Rgb)>,
    pub underline_start: Option<Cell>,
    pub strikeout_start: Option<Cell>,
    pub last_cell: Option<Cell>,
    pub metrics: Metrics,
    pub size: SizeInfo,
}

impl View for Rects {
    type V = Model;

    open spec fn view(&self) -> Model {
        Model {
            out: self.inner@,
            underline: self.underline_start,
            strikeout: self.strikeout_start,
            last: self.last_cell,
        }
    }
}

/// Advance one decoration kind by one cell: decide the next open run and
/// the rectangle, if any, that closing the current run emits.
fn advance_run(
    prev: Option<Cell>,
    last: Option<Cell>,
    cell: &Cell,
    k: DecorationKind,
    metrics: &Metrics,
    size: &SizeInfo,
) -> (res: (Option<Cell>, Option<(Rect<i64>, Rgb)>))
    requires
        metrics_ok(*metrics),
        size_ok(*size),
        cell_ok(*cell),
        prev matches Some(start) ==> cell_ok(start) && last is Some,
        last matches Some(lc) ==> cell_ok(lc),
    ensures
        res.0 == next_run(prev, last, *cell, k),
        step_emit(prev, last, *cell, k, *metrics, *size) == (match res.1 {
            Some(p) => seq![p],
            None => Seq::<(Rect<i64>, Rgb)>::empty(),
        }),
{
    match prev {
        Some(start) => {
            let lc: Cell = last.unwrap();
            let stays_open: bool = cell.line == start.line && has_flag(cell, k) && cell.fg
                == start.fg && cell.column == lc.column + 1;
            if stays_open {
                (Some(start), None)
            } else {
                let closed = create_rect(&start, &lc, k, metrics, size);
                let reopened: Option<Cell> = if has_flag(cell, k) {
                    Some(*cell)
                } else {
                    None
                };
                proof {
                    assert(step_emit(prev, last, *cell, k, *metrics, *size) =~= seq![closed]);
                }
                (reopened, Some(closed))
            }
        },
        None => {
            let opened: Option<Cell> = if has_flag(cell, k) {
                Some(*cell)
            } else {
                None
            };
            (opened, None)
        },
    }
}

impl Rects {
    /// The tracker's configuration is within the geometry bounds and its
    /// state satisfies the machine's invariants.
    pub open spec fn wf(self) -> bool {
        metrics_ok(self.metrics) && size_ok(self.size) && model_wf(self@)
    }

    /// A fresh tracker for one rendering pass: no rectangles, all runs
    /// closed, no cell seen yet.
    pub fn new(metrics: Metrics, size: SizeInfo) -> (r: Rects)
        requires
            metrics_ok(metrics),
            size_ok(size),
        ensures
            r.wf(),
            r@ == (Model {
                out: Seq::<(Rect<i64>, Rgb)>::empty(),
                underline: None::<Cell>,
                strikeout: None::<Cell>,
                last: None::<Cell>,
            }),
            r.metrics == metrics,
            r.size == size,
    {
        let r = Rects {
            inner: Vec::new(),
            underline_start: None,
            strikeout_start: None,
            last_cell: None,
            metrics,
            size,
        };
        proof {
            assert(r@.out =~= Seq::<(Rect<i64>, Rgb)>::empty());
        }
        r
    }

    /// Advance the machine by one cell, for every decoration kind
    /// independently: runs the cell continues stay open silently; runs it
    /// breaks close and emit their rectangle, ending at the previously
    /// processed cell; and a new run opens at `cell` for every flag it
    /// carries that has no continuing run. The cell becomes the last cell
    /// seen.
    pub fn update_lines(&mut self, cell: &Cell)
        requires
            old(self).wf(),
            cell_ok(*cell),
        ensures
            final(self).wf(),
            final(self)@ == step_model(old(self)@, old(self).metrics, old(self).size, *cell),
            final(self).metrics == old(self).metrics,
            final(self).size == old(self).size,
    {
        let (next_underline, emit_underline) = advance_run(
            self.underline_start,
            self.last_cell,
            cell,
            DecorationKind::Underline,
            &self.metrics,
            &self.size,
        );
        self.underline_start = next_underline;
        match emit_underline {
            Some(p) => self.inner.push(p),
            None => (),
        }
        let (next_strikeout, emit_strikeout) = advance_run(
            self.strikeout_start,
            self.last_cell,
            cell,
            DecorationKind::Strikeout,
            &self.metrics,
            &self.size,
        );
        self.strikeout_start = next_strikeout;
        match emit_strikeout {
            Some(p) => self.inner.push(p),
            None => (),
        }
        self.last_cell = Some(*cell);
        proof {
            let target = step_model(old(self)@, old(self).metrics, old(self).size, *cell);
            assert(self@.out =~= target.out);
            assert(self@ =~= target);
        }
    }

    /// Inject a rectangle into the output batch, bypassing the merge logic:
    /// it is appended as given, and no run state changes.
    pub fn push(&mut self, rect: Rect<i64>, color: Rgb)
        ensures
            final(self)@ == (Model {
                out: old(self)@.out.push((rect, color)),
                underline: old(self)@.underline,
                strikeout: old(self)@.strikeout,
                last: old(self)@.last,
            }),
            final(self).metrics == old(self).metrics,
            final(self).size == old(self).size,
            old(self).wf() ==> final(self).wf(),
    {
        self.inner.push((rect, color));
    }

    /// Finalize the pass: close every still-open run at the last cell
    /// processed -- always present once a run is open -- and hand back the
    /// accumulated rectangles in accumulation order. Consumes the tracker;
    /// it is not reused across passes.
    pub fn rects(self) -> (out: Vec<(Rect<i64>, Rgb)>)
        requires
            self.wf(),
        ensures
            out@ == flush_model(self@, self.metrics, self.size),
    {
        let ghost pre = self@;
        let mut me = self;
        match me.underline_start {
            Some(start) => {
                let lc: Cell = me.last_cell.unwrap();
                let p = create_rect(&start, &lc, DecorationKind::Underline, &me.metrics, &me.size);
                me.inner.push(p);
            },
            None => (),
        }
        match me.strikeout_start {
            Some(start) => {
                let lc: Cell = me.last_cell.unwrap();
                let p = create_rect(&start, &lc, DecorationKind::Strikeout, &me.metrics, &me.size);
                me.inner.push(p);
            },
            None => (),
        }
        proof {
            assert(me.inner@ =~= flush_model(pre, me.metrics, me.size));
        }
        me.inner
    }
}

} // verus!
