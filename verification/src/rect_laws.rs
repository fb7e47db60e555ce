//! Laws of the run-merging algorithm: over any scan-ordered cell sequence,
//! the runs it flushes exactly tile the styled cells. Every run lies in the
//! grid and carries, at every column it covers, a cell with its flag and its
//! starting foreground color; no two runs of one flag overlap within a row;
//! every styled cell is covered by a run; and no flushed run could have been
//! extended by one more column of the same color.

use vstd::prelude::*;
use crate::term::{Point, RenderableCell, SizeInfo};
use crate::rects::{
    Line, LineFlag, step_line_spec, run_wf, cells_in_grid, continues_run, at_grid_end, frame_lines,
};

verus! {

/// Strict scan order of two cells: an earlier row, or an earlier column in
/// one row.
pub open spec fn cell_before(a: RenderableCell, b: RenderableCell) -> bool {
    a.line < b.line || (a.line == b.line && a.column < b.column)
}

/// Cells arrive in strict left-to-right, top-to-bottom scan order.
pub open spec fn scan_ordered(cells: Seq<RenderableCell>) -> bool {
    forall|k: int| 0 <= k < cells.len() - 1 ==> cell_before(#[trigger] cells[k], cells[k + 1])
}

proof fn lemma_scan_mono(cells: Seq<RenderableCell>, i: int, j: int)
    requires
        scan_ordered(cells),
        0 <= i < j < cells.len(),
    ensures
        cell_before(cells[i], cells[j]),
    decreases j - i,
{
    if i + 1 < j {
        lemma_scan_mono(cells, i, j - 1);
    }
}

/// The runs a step's flush contributes: one or none.
pub open spec fn opt_run_seq(o: Option<(RenderableCell, Point)>) -> Seq<(RenderableCell, Point)> {
    match o {
        Some(r) => seq![r],
        None => Seq::empty(),
    }
}

/// The run-merging fold for one flag over the first `i` cells: the open run
/// and the flushed runs, in flush order.
pub open spec fn run_fold(cells: Seq<RenderableCell>, i: int, flag: LineFlag, size: SizeInfo) -> (
    Line,
    Seq<(RenderableCell, Point)>,
)
    decreases i,
{
    if i <= 0 {
        (Line { flag, range: None }, Seq::empty())
    } else {
        let prev = run_fold(cells, i - 1, flag, size);
        let stepped = step_line_spec(prev.0, cells[i - 1], size);
        (stepped.0, prev.1 + opt_run_seq(stepped.1))
    }
}

/// All runs after `i` cells: the flushed ones, then the still-open one.
pub open spec fn all_runs(cells: Seq<RenderableCell>, i: int, flag: LineFlag, size: SizeInfo) -> Seq<
    (RenderableCell, Point),
> {
    run_fold(cells, i, flag, size).1 + opt_run_seq(run_fold(cells, i, flag, size).0.range)
}

/// Whether a run covers a grid position.
pub open spec fn covers(r: (RenderableCell, Point), line: int, col: int) -> bool {
    r.0.line == line && r.0.column <= col <= r.1.col
}

/// Strict ordering of two runs: an earlier row, or disjoint column ranges in
/// one row with the first ending left of where the second starts.
pub open spec fn run_before(a: (RenderableCell, Point), b: (RenderableCell, Point)) -> bool {
    a.0.line < b.0.line || (a.0.line == b.0.line && a.1.col < b.0.column)
}

/// A run ends at or before the most recently processed cell.
pub open spec fn run_frontier(r: (RenderableCell, Point), last: RenderableCell) -> bool {
    r.0.line < last.line || (r.0.line == last.line && r.1.col <= last.column)
}

/// A closed run lies strictly behind the most recent cell, unless it was
/// flushed on reaching the end of the grid.
pub open spec fn run_behind(
    r: (RenderableCell, Point),
    last: RenderableCell,
    size: SizeInfo,
) -> bool {
    ||| r.0.line < last.line
    ||| (r.0.line == last.line && r.1.col < last.column)
    ||| (r.1.col + 1 == size.cols_spec() && r.0.line + 1 == size.lines_spec())
}

/// At every column a run covers, the first `i` cells hold a cell of the
/// run's row with the run's foreground color and the flag set.
pub open spec fn col_present(
    cells: Seq<RenderableCell>,
    i: int,
    r: (RenderableCell, Point),
    c: int,
    flag: LineFlag,
) -> bool {
    exists|k: int|
        0 <= k < i && (#[trigger] cells[k]).line == r.0.line && cells[k].column == c
            && cells[k].fg == r.0.fg && flag.set_in(cells[k].flags)
}

/// No cell among the first `i` continues this run one column past its end
/// with the same foreground color: the run is maximal to the right.
pub open spec fn no_extension_right(
    cells: Seq<RenderableCell>,
    i: int,
    r: (RenderableCell, Point),
    flag: LineFlag,
) -> bool {
    forall|k: int|
        0 <= k < i ==> !((#[trigger] cells[k]).line == r.0.line && cells[k].column == r.1.col + 1
            && cells[k].fg == r.0.fg && flag.set_in(cells[k].flags))
}

/// Every run lies inside the grid, on one row.
pub open spec fn inv_wf(cells: Seq<RenderableCell>, i: int, flag: LineFlag, size: SizeInfo) -> bool {
    let runs = all_runs(cells, i, flag, size);
    forall|a: int| 0 <= a < runs.len() ==> run_wf((#[trigger] runs[a]).0, runs[a].1, size)
}

/// Every column a run covers holds a cell with the run's row, color and flag.
pub open spec fn inv_contents(cells: Seq<RenderableCell>, i: int, flag: LineFlag, size: SizeInfo) -> bool {
    let runs = all_runs(cells, i, flag, size);
    forall|a: int, c: int|
        #![trigger col_present(cells, i, runs[a], c, flag)]
        0 <= a < runs.len() && runs[a].0.column <= c <= runs[a].1.col ==> col_present(
            cells,
            i,
            runs[a],
            c,
            flag,
        )
}

/// Runs are strictly ordered: no two overlap in columns within one row.
pub open spec fn inv_ordered(cells: Seq<RenderableCell>, i: int, flag: LineFlag, size: SizeInfo) -> bool {
    let runs = all_runs(cells, i, flag, size);
    forall|a: int, b: int|
        0 <= a < b < runs.len() ==> run_before(#[trigger] runs[a], #[trigger] runs[b])
}

/// Every run ends at or before the most recently processed cell.
pub open spec fn inv_frontier(cells: Seq<RenderableCell>, i: int, flag: LineFlag, size: SizeInfo) -> bool {
    let runs = all_runs(cells, i, flag, size);
    forall|a: int|
        0 <= a < runs.len() ==> i > 0 && run_frontier(#[trigger] runs[a], cells[i - 1])
}

/// An open run always ends exactly on the most recent cell of its row.
pub open spec fn inv_open(cells: Seq<RenderableCell>, i: int, flag: LineFlag, size: SizeInfo) -> bool {
    match run_fold(cells, i, flag, size).0.range {
        Some((s, e)) => i > 0 && e == cells[i - 1].point_spec() && s.line == cells[i - 1].line,
        None => true,
    }
}

/// Every flushed run lies strictly behind the most recent cell, or was
/// flushed on reaching the end of the grid.
pub open spec fn inv_behind(cells: Seq<RenderableCell>, i: int, flag: LineFlag, size: SizeInfo) -> bool {
    let closed = run_fold(cells, i, flag, size).1;
    forall|a: int|
        0 <= a < closed.len() ==> i > 0 && run_behind(#[trigger] closed[a], cells[i - 1], size)
}

/// No flushed run can be extended one column right with the same color.
pub open spec fn inv_no_ext(cells: Seq<RenderableCell>, i: int, flag: LineFlag, size: SizeInfo) -> bool {
    let closed = run_fold(cells, i, flag, size).1;
    forall|a: int| 0 <= a < closed.len() ==> no_extension_right(cells, i, #[trigger] closed[a], flag)
}

/// Every styled cell is covered by some run.
pub open spec fn inv_cover(cells: Seq<RenderableCell>, i: int, flag: LineFlag, size: SizeInfo) -> bool {
    let runs = all_runs(cells, i, flag, size);
    forall|k: int|
        0 <= k < i && flag.set_in((#[trigger] cells[k]).flags) ==> exists|a: int|
            0 <= a < runs.len() && covers(
                #[trigger] runs[a],
                cells[k].line as int,
                cells[k].column as int,
            )
}

/// The full invariant of the fold after `i` cells.
pub open spec fn runs_inv(cells: Seq<RenderableCell>, i: int, flag: LineFlag, size: SizeInfo) -> bool {
    &&& run_fold(cells, i, flag, size).0.flag == flag
    &&& inv_wf(cells, i, flag, size)
    &&& inv_contents(cells, i, flag, size)
    &&& inv_ordered(cells, i, flag, size)
    &&& inv_frontier(cells, i, flag, size)
    &&& inv_open(cells, i, flag, size)
    &&& inv_behind(cells, i, flag, size)
    &&& inv_no_ext(cells, i, flag, size)
    &&& inv_cover(cells, i, flag, size)
}

proof fn lemma_col_present_mono(
    cells: Seq<RenderableCell>,
    i: int,
    j: int,
    r: (RenderableCell, Point),
    r2: (RenderableCell, Point),
    c: int,
    flag: LineFlag,
)
    requires
        col_present(cells, i, r, c, flag),
        i <= j,
        r2.0 == r.0,
    ensures
        col_present(cells, j, r2, c, flag),
{
    let k = choose|k: int|
        0 <= k < i && (#[trigger] cells[k]).line == r.0.line && cells[k].column == c
            && cells[k].fg == r.0.fg && flag.set_in(cells[k].flags);
    assert(0 <= k < j && cells[k].line == r2.0.line && cells[k].column == c && cells[k].fg
        == r2.0.fg && flag.set_in(cells[k].flags));
}

proof fn lemma_frontier_step(r: (RenderableCell, Point), old_last: RenderableCell, new_last: RenderableCell)
    requires
        run_frontier(r, old_last),
        cell_before(old_last, new_last),
    ensures
        run_frontier(r, new_last),
{
}

proof fn lemma_behind_step(
    r: (RenderableCell, Point),
    old_last: RenderableCell,
    new_last: RenderableCell,
    size: SizeInfo,
)
    requires
        run_behind(r, old_last, size),
        cell_before(old_last, new_last),
    ensures
        run_behind(r, new_last, size),
{
}

proof fn lemma_no_ext_step(
    cells: Seq<RenderableCell>,
    i: int,
    r: (RenderableCell, Point),
    flag: LineFlag,
    size: SizeInfo,
)
    requires
        2 <= i <= cells.len(),
        cells_in_grid(cells, size),
        no_extension_right(cells, i - 1, r, flag),
        run_behind(r, cells[i - 2], size),
        cell_before(cells[i - 2], cells[i - 1]),
    ensures
        no_extension_right(cells, i, r, flag),
{
    let cell = cells[i - 1];
    assert(size.contains_cell(cell.line as int, cell.column as int));
    if r.1.col + 1 == size.cols_spec() && r.0.line + 1 == size.lines_spec() {
        assert(cell.column != r.1.col + 1);
    }
}

/// A closed run lies strictly before any run starting at a strictly later
/// cell.
proof fn lemma_closed_before_new(
    r: (RenderableCell, Point),
    old_last: RenderableCell,
    cell: RenderableCell,
    size: SizeInfo,
)
    requires
        run_behind(r, old_last, size),
        run_frontier(r, old_last),
        cell_before(old_last, cell),
        run_wf(r.0, r.1, size),
        size.contains_cell(old_last.line as int, old_last.column as int),
        size.contains_cell(cell.line as int, cell.column as int),
    ensures
        run_before(r, (cell, cell.point_spec())),
{
    if r.1.col + 1 == size.cols_spec() && r.0.line + 1 == size.lines_spec() {
        // Flushed at the end of the grid: no in-grid cell lies beyond it.
        assert(old_last.line == r.0.line && old_last.column == r.1.col);
        assert(false);
    }
}

/// Law: over any in-grid, scan-ordered cell sequence, the runs the merge
/// algorithm produces exactly tile the styled cells: each run is in-grid
/// with a cell of its color and flag at every covered column, runs of one
/// flag never overlap within a row, every cell with the flag set is covered
/// by a run, and no flushed run can be extended one column right with the
/// same color.
pub proof fn lemma_runs_tile(cells: Seq<RenderableCell>, i: int, flag: LineFlag, size: SizeInfo)
    requires
        size.wf(),
        cells_in_grid(cells, size),
        scan_ordered(cells),
        0 <= i <= cells.len(),
    ensures
        runs_inv(cells, i, flag, size),
    decreases i,
{
    if i > 0 {
        lemma_runs_tile(cells, i - 1, flag, size);
        let cell = cells[i - 1];
        let prev = run_fold(cells, i - 1, flag, size);
        let st = run_fold(cells, i, flag, size);
        let runs_prev = all_runs(cells, i - 1, flag, size);
        let runs = all_runs(cells, i, flag, size);
        assert(size.contains_cell(cell.line as int, cell.column as int));
        if i >= 2 {
            assert(cell_before(cells[i - 2], cell));
        }
        // Every cell before the previous one lies at or behind it.
        assert forall|k: int| 0 <= k < i - 1 implies !cell_before(cells[i - 2], cells[k])
            && (cells[k].line < cell.line || (cells[k].line == cell.line && cells[k].column
            < cell.column)) by {
            if k < i - 2 {
                lemma_scan_mono(cells, k, i - 2);
            }
            lemma_scan_mono(cells, k, i - 1);
        }
        match prev.0.range {
            Some((s, e)) => {
                if continues_run(cell, s, e, flag) {
                    if at_grid_end(cell, size) {
                        lemma_step_flush_extend(cells, i, flag, size);
                    } else {
                        lemma_step_extend(cells, i, flag, size);
                    }
                } else {
                    lemma_step_break(cells, i, flag, size);
                }
            },
            None => {
                lemma_step_fresh(cells, i, flag, size);
            },
        }
    } else {
        assert(all_runs(cells, 0, flag, size) =~= Seq::<(RenderableCell, Point)>::empty());
    }
}

/// The per-frame fold that `build_frame_rects` is specified by tracks, for
/// each flag, exactly the state of the per-flag run fold that the tiling law
/// speaks about.
pub proof fn lemma_frame_lines_are_run_folds(cells: Seq<RenderableCell>, i: int, size: SizeInfo)
    requires
        0 <= i <= cells.len(),
    ensures
        frame_lines(cells, i, size).0 == run_fold(cells, i, LineFlag::Underline, size).0,
        frame_lines(cells, i, size).1 == run_fold(cells, i, LineFlag::Strikeout, size).0,
    decreases i,
{
    if i > 0 {
        lemma_frame_lines_are_run_folds(cells, i - 1, size);
    }
}

/// Two cells of a scan-ordered sequence at one grid position are the same
/// cell.
proof fn lemma_position_unique(cells: Seq<RenderableCell>, k1: int, k2: int)
    requires
        scan_ordered(cells),
        0 <= k1 < cells.len(),
        0 <= k2 < cells.len(),
        cells[k1].line == cells[k2].line,
        cells[k1].column == cells[k2].column,
    ensures
        k1 == k2,
{
    if k1 < k2 {
        lemma_scan_mono(cells, k1, k2);
    } else if k2 < k1 {
        lemma_scan_mono(cells, k2, k1);
    }
}

/// Law: runs are maximal to the left as well. No run's starting cell has a
/// left neighbor cell with the same flag and foreground color: such a
/// neighbor would belong to a run ending right before this one, which the
/// right-maximality of flushed runs rules out.
pub proof fn lemma_runs_left_maximal(
    cells: Seq<RenderableCell>,
    i: int,
    flag: LineFlag,
    size: SizeInfo,
    a: int,
    k: int,
)
    requires
        size.wf(),
        cells_in_grid(cells, size),
        scan_ordered(cells),
        0 <= i <= cells.len(),
        0 <= a < all_runs(cells, i, flag, size).len(),
        0 <= k < i,
    ensures
        !(cells[k].line == all_runs(cells, i, flag, size)[a].0.line && cells[k].column + 1
            == all_runs(cells, i, flag, size)[a].0.column && cells[k].fg == all_runs(
            cells,
            i,
            flag,
            size,
        )[a].0.fg && flag.set_in(cells[k].flags)),
{
    lemma_runs_tile(cells, i, flag, size);
    let runs = all_runs(cells, i, flag, size);
    let closed = run_fold(cells, i, flag, size).1;
    let ra = runs[a];
    if cells[k].line == ra.0.line && cells[k].column + 1 == ra.0.column && cells[k].fg == ra.0.fg
        && flag.set_in(cells[k].flags) {
        // The neighbor is styled, so some run `b` covers it.
        assert(exists|b: int|
            0 <= b < runs.len() && covers(
                #[trigger] runs[b],
                cells[k].line as int,
                cells[k].column as int,
            ));
        let b = choose|b: int|
            0 <= b < runs.len() && covers(
                #[trigger] runs[b],
                cells[k].line as int,
                cells[k].column as int,
            );
        let rb = runs[b];
        // `b` ends exactly one column left of `a`, so `b` comes first and is
        // a flushed run: the open run is always the last one.
        assert(b != a);
        if a < b {
            assert(run_before(runs[a], runs[b]));
            assert(false);
        }
        assert(run_before(runs[b], runs[a]));
        assert(rb.1.col == cells[k].column);
        assert(b < closed.len());
        assert(closed[b] == runs[b]);
        assert(no_extension_right(cells, i, closed[b], flag));
        // The run `b` carries the neighbor's color, since the neighbor is the
        // one cell at its position.
        assert(col_present(cells, i, rb, cells[k].column as int, flag));
        let kb = choose|kb: int|
            0 <= kb < i && (#[trigger] cells[kb]).line == rb.0.line && cells[kb].column
                == cells[k].column as int && cells[kb].fg == rb.0.fg && flag.set_in(
                cells[kb].flags,
            );
        lemma_position_unique(cells, k, kb);
        assert(rb.0.fg == cells[k].fg);
        // And the starting cell of `a` is a styled cell of the same color one
        // column right of `b`'s end: `b` could have been extended after all.
        assert(col_present(cells, i, ra, ra.0.column as int, flag));
        let ka = choose|ka: int|
            0 <= ka < i && (#[trigger] cells[ka]).line == ra.0.line && cells[ka].column
                == ra.0.column as int && cells[ka].fg == ra.0.fg && flag.set_in(cells[ka].flags);
        assert(cells[ka].line == closed[b].0.line && cells[ka].column == closed[b].1.col + 1
            && cells[ka].fg == closed[b].0.fg && flag.set_in(cells[ka].flags));
        assert(false);
    }
}

/// The step case where the cell continues the open run and the grid goes on:
/// the run's end advances to this cell.
#[verifier::rlimit(80)]
#[verifier::spinoff_prover]
proof fn lemma_step_extend(cells: Seq<RenderableCell>, i: int, flag: LineFlag, size: SizeInfo)
    requires
        size.wf(),
        cells_in_grid(cells, size),
        scan_ordered(cells),
        1 <= i <= cells.len(),
        runs_inv(cells, i - 1, flag, size),
        ({
            let prev = run_fold(cells, i - 1, flag, size);
            match prev.0.range {
                Some((s, e)) => continues_run(cells[i - 1], s, e, flag) && !at_grid_end(
                    cells[i - 1],
                    size,
                ),
                None => false,
            }
        }),
    ensures
        runs_inv(cells, i, flag, size),
{
    let cell = cells[i - 1];
    let prev = run_fold(cells, i - 1, flag, size);
    let st = run_fold(cells, i, flag, size);
    let runs_prev = all_runs(cells, i - 1, flag, size);
    let runs = all_runs(cells, i, flag, size);
    let s = prev.0.range.unwrap().0;
    let e = prev.0.range.unwrap().1;
    assert(size.contains_cell(cell.line as int, cell.column as int));
    assert(i >= 2);
    let old_last = cells[i - 2];
    assert(cell_before(old_last, cell));
    assert(e == old_last.point_spec() && s.line == old_last.line);
    let stepped = step_line_spec(prev.0, cell, size);
    assert(stepped.0 == Line { flag, range: Some((s, cell.point_spec())) });
    assert(stepped.1.is_none());
    assert(st.1 =~= prev.1);
    assert(runs =~= prev.1 + seq![(s, cell.point_spec())]);
    assert(runs_prev =~= prev.1 + seq![(s, e)]);
    let n = runs.len() as int;
    assert(n == runs_prev.len() && n >= 1);
    assert(forall|a: int| 0 <= a < n - 1 ==> runs[a] == runs_prev[a] && runs[a] == prev.1[a]);
    assert(runs[n - 1] == (s, cell.point_spec()));
    assert(runs_prev[n - 1] == (s, e));

    assert forall|a: int| 0 <= a < runs.len() implies run_wf(
        (#[trigger] runs[a]).0,
        runs[a].1,
        size,
    ) by {
        assert(run_wf(runs_prev[a].0, runs_prev[a].1, size));
        if a == n - 1 {
            assert(cell.column == e.col + 1);
        }
    }
    assert forall|a: int, c: int|
        0 <= a < runs.len() && (runs[a]).0.column <= c <= runs[a].1.col implies col_present(
        cells,
        i,
        runs[a],
        c,
        flag,
    ) by {
        if a < n - 1 || c <= e.col {
            assert(runs_prev[a].0.column <= c <= runs_prev[a].1.col);
            assert(col_present(cells, i - 1, runs_prev[a], c, flag));
            lemma_col_present_mono(cells, i - 1, i, runs_prev[a], runs[a], c, flag);
        } else {
            assert(c == cell.column);
            assert(cells[i - 1].line == runs[a].0.line && cells[i - 1].column == c && cells[i
                - 1].fg == runs[a].0.fg && flag.set_in(cells[i - 1].flags));
        }
    }
    assert forall|a: int, b: int| 0 <= a < b < runs.len() implies run_before(
        #[trigger] runs[a],
        #[trigger] runs[b],
    ) by {
        assert(run_before(runs_prev[a], runs_prev[b]));
        assert(runs[a] == runs_prev[a]);
        assert(runs[b].0 == runs_prev[b].0);
    }
    assert forall|a: int| 0 <= a < runs.len() implies i > 0 && run_frontier(
        #[trigger] runs[a],
        cells[i - 1],
    ) by {
        if a < n - 1 {
            assert(run_frontier(runs_prev[a], old_last));
            lemma_frontier_step(runs_prev[a], old_last, cell);
        }
    }
    assert forall|a: int| 0 <= a < st.1.len() implies i > 0 && run_behind(
        #[trigger] st.1[a],
        cells[i - 1],
        size,
    ) by {
        assert(st.1[a] == prev.1[a]);
        assert(run_behind(prev.1[a], old_last, size));
        lemma_behind_step(prev.1[a], old_last, cell, size);
    }
    assert forall|a: int| 0 <= a < st.1.len() implies no_extension_right(
        cells,
        i,
        #[trigger] st.1[a],
        flag,
    ) by {
        assert(st.1[a] == prev.1[a]);
        assert(no_extension_right(cells, i - 1, prev.1[a], flag));
        assert(run_behind(prev.1[a], old_last, size));
        lemma_no_ext_step(cells, i, prev.1[a], flag, size);
    }
    assert forall|k: int| 0 <= k < i && flag.set_in((#[trigger] cells[k]).flags) implies exists|a: int|
        0 <= a < all_runs(cells, i, flag, size).len() && covers(
            #[trigger] all_runs(cells, i, flag, size)[a],
            cells[k].line as int,
            cells[k].column as int,
        ) by {
        if k < i - 1 {
            let a0 = choose|a: int|
                0 <= a < runs_prev.len() && covers(
                    #[trigger] runs_prev[a],
                    cells[k].line as int,
                    cells[k].column as int,
                );
            assert(covers(runs[a0], cells[k].line as int, cells[k].column as int));
        } else {
            assert(covers(runs[n - 1], cell.line as int, cell.column as int));
        }
    }
}

/// The step case where the cell continues the open run onto the last column
/// of the last row: the run is flushed at once.
#[verifier::rlimit(80)]
#[verifier::spinoff_prover]
proof fn lemma_step_flush_extend(cells: Seq<RenderableCell>, i: int, flag: LineFlag, size: SizeInfo)
    requires
        size.wf(),
        cells_in_grid(cells, size),
        scan_ordered(cells),
        1 <= i <= cells.len(),
        runs_inv(cells, i - 1, flag, size),
        ({
            let prev = run_fold(cells, i - 1, flag, size);
            match prev.0.range {
                Some((s, e)) => continues_run(cells[i - 1], s, e, flag) && at_grid_end(
                    cells[i - 1],
                    size,
                ),
                None => false,
            }
        }),
    ensures
        runs_inv(cells, i, flag, size),
{
    let cell = cells[i - 1];
    let prev = run_fold(cells, i - 1, flag, size);
    let st = run_fold(cells, i, flag, size);
    let runs_prev = all_runs(cells, i - 1, flag, size);
    let runs = all_runs(cells, i, flag, size);
    let s = prev.0.range.unwrap().0;
    let e = prev.0.range.unwrap().1;
    assert(size.contains_cell(cell.line as int, cell.column as int));
    assert(i >= 2);
    let old_last = cells[i - 2];
    assert(cell_before(old_last, cell));
    assert(e == old_last.point_spec() && s.line == old_last.line);
    let stepped = step_line_spec(prev.0, cell, size);
    assert(stepped.0 == Line { flag, range: None });
    assert(stepped.1 == Some((s, cell.point_spec())));
    assert(st.1 =~= prev.1 + seq![(s, cell.point_spec())]);
    assert(runs =~= prev.1 + seq![(s, cell.point_spec())]);
    assert(runs_prev =~= prev.1 + seq![(s, e)]);
    let n = runs.len() as int;
    assert(n == runs_prev.len() && n >= 1);
    assert(forall|a: int| 0 <= a < n - 1 ==> runs[a] == runs_prev[a] && runs[a] == prev.1[a]);
    assert(runs[n - 1] == (s, cell.point_spec()));
    assert(runs_prev[n - 1] == (s, e));

    assert forall|a: int| 0 <= a < runs.len() implies run_wf(
        (#[trigger] runs[a]).0,
        runs[a].1,
        size,
    ) by {
        assert(run_wf(runs_prev[a].0, runs_prev[a].1, size));
        if a == n - 1 {
            assert(cell.column == e.col + 1);
        }
    }
    assert forall|a: int, c: int|
        0 <= a < runs.len() && (runs[a]).0.column <= c <= runs[a].1.col implies col_present(
        cells,
        i,
        runs[a],
        c,
        flag,
    ) by {
        if a < n - 1 || c <= e.col {
            assert(runs_prev[a].0.column <= c <= runs_prev[a].1.col);
            assert(col_present(cells, i - 1, runs_prev[a], c, flag));
            lemma_col_present_mono(cells, i - 1, i, runs_prev[a], runs[a], c, flag);
        } else {
            assert(c == cell.column);
            assert(cells[i - 1].line == runs[a].0.line && cells[i - 1].column == c && cells[i
                - 1].fg == runs[a].0.fg && flag.set_in(cells[i - 1].flags));
        }
    }
    assert forall|a: int, b: int| 0 <= a < b < runs.len() implies run_before(
        #[trigger] runs[a],
        #[trigger] runs[b],
    ) by {
        assert(run_before(runs_prev[a], runs_prev[b]));
        assert(runs[a] == runs_prev[a]);
        assert(runs[b].0 == runs_prev[b].0);
    }
    assert forall|a: int| 0 <= a < runs.len() implies i > 0 && run_frontier(
        #[trigger] runs[a],
        cells[i - 1],
    ) by {
        if a < n - 1 {
            assert(run_frontier(runs_prev[a], old_last));
            lemma_frontier_step(runs_prev[a], old_last, cell);
        }
    }
    assert forall|a: int| 0 <= a < st.1.len() implies i > 0 && run_behind(
        #[trigger] st.1[a],
        cells[i - 1],
        size,
    ) by {
        if a < st.1.len() - 1 {
            assert(st.1[a] == prev.1[a]);
            assert(run_behind(prev.1[a], old_last, size));
            lemma_behind_step(prev.1[a], old_last, cell, size);
        } else {
            // Flushed at the end of the grid.
            assert(st.1[a] == (s, cell.point_spec()));
            assert(cell.point_spec().col + 1 == size.cols_spec());
            assert(s.line + 1 == size.lines_spec());
        }
    }
    assert forall|a: int| 0 <= a < st.1.len() implies no_extension_right(
        cells,
        i,
        #[trigger] st.1[a],
        flag,
    ) by {
        if a < st.1.len() - 1 {
            assert(st.1[a] == prev.1[a]);
            assert(no_extension_right(cells, i - 1, prev.1[a], flag));
            assert(run_behind(prev.1[a], old_last, size));
            lemma_no_ext_step(cells, i, prev.1[a], flag, size);
        } else {
            let r = st.1[a];
            assert(r.1.col + 1 == size.cols_spec());
            assert forall|k: int| 0 <= k < i implies !((#[trigger] cells[k]).line == r.0.line
                && cells[k].column == r.1.col + 1 && cells[k].fg == r.0.fg && flag.set_in(
                cells[k].flags,
            )) by {
                assert(size.contains_cell(cells[k].line as int, cells[k].column as int));
            }
        }
    }
    assert forall|k: int| 0 <= k < i && flag.set_in((#[trigger] cells[k]).flags) implies exists|a: int|
        0 <= a < all_runs(cells, i, flag, size).len() && covers(
            #[trigger] all_runs(cells, i, flag, size)[a],
            cells[k].line as int,
            cells[k].column as int,
        ) by {
        if k < i - 1 {
            let a0 = choose|a: int|
                0 <= a < runs_prev.len() && covers(
                    #[trigger] runs_prev[a],
                    cells[k].line as int,
                    cells[k].column as int,
                );
            assert(covers(runs[a0], cells[k].line as int, cells[k].column as int));
        } else {
            assert(covers(runs[n - 1], cell.line as int, cell.column as int));
        }
    }
}

/// The step case where an open run exists and the cell breaks it: the run is
/// flushed, and a new one starts here when the cell sets the flag.
#[verifier::rlimit(100)]
#[verifier::spinoff_prover]
proof fn lemma_step_break(cells: Seq<RenderableCell>, i: int, flag: LineFlag, size: SizeInfo)
    requires
        size.wf(),
        cells_in_grid(cells, size),
        scan_ordered(cells),
        1 <= i <= cells.len(),
        runs_inv(cells, i - 1, flag, size),
        ({
            let prev = run_fold(cells, i - 1, flag, size);
            match prev.0.range {
                Some((s, e)) => !continues_run(cells[i - 1], s, e, flag),
                None => false,
            }
        }),
    ensures
        runs_inv(cells, i, flag, size),
{
    let cell = cells[i - 1];
    let prev = run_fold(cells, i - 1, flag, size);
    let st = run_fold(cells, i, flag, size);
    let runs_prev = all_runs(cells, i - 1, flag, size);
    let runs = all_runs(cells, i, flag, size);
    let s = prev.0.range.unwrap().0;
    let e = prev.0.range.unwrap().1;
    let starts = flag.set_in(cell.flags);
    assert(size.contains_cell(cell.line as int, cell.column as int));
    assert(i >= 2);
    let old_last = cells[i - 2];
    assert(cell_before(old_last, cell));
    assert(e == old_last.point_spec() && s.line == old_last.line);
    let stepped = step_line_spec(prev.0, cell, size);
    assert(stepped.1 == Some((s, e)));
    assert(st.1 =~= prev.1 + seq![(s, e)]);
    assert(st.1 =~= runs_prev);
    if starts {
        assert(stepped.0 == Line { flag, range: Some((cell, cell.point_spec())) });
        assert(runs =~= runs_prev + seq![(cell, cell.point_spec())]);
    } else {
        assert(stepped.0 == Line { flag, range: None });
        assert(runs =~= runs_prev);
    }
    let np = runs_prev.len() as int;
    assert(forall|a: int| 0 <= a < np ==> runs[a] == runs_prev[a]);
    // The flushed run lies strictly behind the breaking cell.
    assert(run_behind((s, e), cell, size)) by {
        if cell.line == s.line {
            assert(cell.column > old_last.column);
        }
    }
    // The flushed run cannot be extended: earlier cells lie at or before the
    // run's end, and the breaking cell itself fails the flag or the color.
    assert(no_extension_right(cells, i, (s, e), flag)) by {
        assert forall|k: int| 0 <= k < i implies !((#[trigger] cells[k]).line == (s, e).0.line
            && cells[k].column == (s, e).1.col + 1 && cells[k].fg == (s, e).0.fg && flag.set_in(
            cells[k].flags,
        )) by {
            if k < i - 1 {
                if k < i - 2 {
                    lemma_scan_mono(cells, k, i - 2);
                }
                assert(cells[k].line == s.line ==> cells[k].column <= e.col);
            } else {
                if cell.line == s.line && cell.column == e.col + 1 {
                    assert(!(flag.set_in(cell.flags) && cell.fg == s.fg));
                }
            }
        }
    }

    assert forall|a: int| 0 <= a < runs.len() implies run_wf(
        (#[trigger] runs[a]).0,
        runs[a].1,
        size,
    ) by {
        if a < np {
            assert(run_wf(runs_prev[a].0, runs_prev[a].1, size));
        }
    }
    assert forall|a: int, c: int|
        0 <= a < runs.len() && (runs[a]).0.column <= c <= runs[a].1.col implies col_present(
        cells,
        i,
        runs[a],
        c,
        flag,
    ) by {
        if a < np {
            assert(runs_prev[a].0.column <= c <= runs_prev[a].1.col);
            assert(col_present(cells, i - 1, runs_prev[a], c, flag));
            lemma_col_present_mono(cells, i - 1, i, runs_prev[a], runs[a], c, flag);
        } else {
            assert(c == cell.column);
            assert(cells[i - 1].line == runs[a].0.line && cells[i - 1].column == c && cells[i
                - 1].fg == runs[a].0.fg && flag.set_in(cells[i - 1].flags));
        }
    }
    assert forall|a: int, b: int| 0 <= a < b < runs.len() implies run_before(
        #[trigger] runs[a],
        #[trigger] runs[b],
    ) by {
        if b < np {
            assert(run_before(runs_prev[a], runs_prev[b]));
        } else {
            // b is the freshly started run at the breaking cell.
            assert(runs[b] == (cell, cell.point_spec()));
            if a < np - 1 {
                assert(run_behind(prev.1[a], old_last, size));
                assert(run_frontier(runs_prev[a], old_last));
                lemma_closed_before_new(prev.1[a], old_last, cell, size);
            } else {
                assert(runs[a] == (s, e));
                if cell.line == s.line {
                    assert(cell.column > old_last.column);
                }
            }
        }
    }
    assert forall|a: int| 0 <= a < runs.len() implies i > 0 && run_frontier(
        #[trigger] runs[a],
        cells[i - 1],
    ) by {
        if a < np {
            assert(run_frontier(runs_prev[a], old_last));
            lemma_frontier_step(runs_prev[a], old_last, cell);
        }
    }
    assert forall|a: int| 0 <= a < st.1.len() implies i > 0 && run_behind(
        #[trigger] st.1[a],
        cells[i - 1],
        size,
    ) by {
        if a < st.1.len() - 1 {
            assert(st.1[a] == prev.1[a]);
            assert(run_behind(prev.1[a], old_last, size));
            lemma_behind_step(prev.1[a], old_last, cell, size);
        } else {
            assert(st.1[a] == (s, e));
        }
    }
    assert forall|a: int| 0 <= a < st.1.len() implies no_extension_right(
        cells,
        i,
        #[trigger] st.1[a],
        flag,
    ) by {
        if a < st.1.len() - 1 {
            assert(st.1[a] == prev.1[a]);
            assert(no_extension_right(cells, i - 1, prev.1[a], flag));
            assert(run_behind(prev.1[a], old_last, size));
            lemma_no_ext_step(cells, i, prev.1[a], flag, size);
        } else {
            assert(st.1[a] == (s, e));
        }
    }
    assert forall|k: int| 0 <= k < i && flag.set_in((#[trigger] cells[k]).flags) implies exists|a: int|
        0 <= a < all_runs(cells, i, flag, size).len() && covers(
            #[trigger] all_runs(cells, i, flag, size)[a],
            cells[k].line as int,
            cells[k].column as int,
        ) by {
        if k < i - 1 {
            let a0 = choose|a: int|
                0 <= a < runs_prev.len() && covers(
                    #[trigger] runs_prev[a],
                    cells[k].line as int,
                    cells[k].column as int,
                );
            assert(covers(runs[a0], cells[k].line as int, cells[k].column as int));
        } else {
            assert(runs[runs.len() - 1] == (cell, cell.point_spec()));
            assert(covers(runs[runs.len() - 1], cell.line as int, cell.column as int));
        }
    }
}

/// The step case where no run is open: one starts here when the cell sets
/// the flag, otherwise nothing changes.
#[verifier::rlimit(80)]
#[verifier::spinoff_prover]
proof fn lemma_step_fresh(cells: Seq<RenderableCell>, i: int, flag: LineFlag, size: SizeInfo)
    requires
        size.wf(),
        cells_in_grid(cells, size),
        scan_ordered(cells),
        1 <= i <= cells.len(),
        runs_inv(cells, i - 1, flag, size),
        run_fold(cells, i - 1, flag, size).0.range.is_none(),
    ensures
        runs_inv(cells, i, flag, size),
{
    let cell = cells[i - 1];
    let prev = run_fold(cells, i - 1, flag, size);
    let st = run_fold(cells, i, flag, size);
    let runs_prev = all_runs(cells, i - 1, flag, size);
    let runs = all_runs(cells, i, flag, size);
    let starts = flag.set_in(cell.flags);
    assert(size.contains_cell(cell.line as int, cell.column as int));
    let stepped = step_line_spec(prev.0, cell, size);
    assert(prev.0 == Line { flag, range: None });
    assert(stepped.1.is_none());
    assert(st.1 =~= prev.1);
    assert(runs_prev =~= prev.1);
    if starts {
        assert(stepped.0 == Line { flag, range: Some((cell, cell.point_spec())) });
        assert(runs =~= runs_prev + seq![(cell, cell.point_spec())]);
    } else {
        assert(stepped.0 == prev.0);
        assert(runs =~= runs_prev);
    }
    let np = runs_prev.len() as int;
    assert(forall|a: int| 0 <= a < np ==> runs[a] == runs_prev[a]);

    assert forall|a: int| 0 <= a < runs.len() implies run_wf(
        (#[trigger] runs[a]).0,
        runs[a].1,
        size,
    ) by {
        if a < np {
            assert(run_wf(runs_prev[a].0, runs_prev[a].1, size));
        }
    }
    assert forall|a: int, c: int|
        0 <= a < runs.len() && (runs[a]).0.column <= c <= runs[a].1.col implies col_present(
        cells,
        i,
        runs[a],
        c,
        flag,
    ) by {
        if a < np {
            assert(runs_prev[a].0.column <= c <= runs_prev[a].1.col);
            assert(col_present(cells, i - 1, runs_prev[a], c, flag));
            lemma_col_present_mono(cells, i - 1, i, runs_prev[a], runs[a], c, flag);
        } else {
            assert(c == cell.column);
            assert(cells[i - 1].line == runs[a].0.line && cells[i - 1].column == c && cells[i
                - 1].fg == runs[a].0.fg && flag.set_in(cells[i - 1].flags));
        }
    }
    assert forall|a: int, b: int| 0 <= a < b < runs.len() implies run_before(
        #[trigger] runs[a],
        #[trigger] runs[b],
    ) by {
        if b < np {
            assert(run_before(runs_prev[a], runs_prev[b]));
        } else {
            assert(runs[b] == (cell, cell.point_spec()));
            // Every earlier run is flushed, so it lies strictly behind the
            // cell the flush happened on, and the new cell is later still.
            assert(i - 1 > 0 && run_behind(prev.1[a], cells[i - 2], size));
            assert(run_frontier(runs_prev[a], cells[i - 2]));
            assert(cell_before(cells[i - 2], cell));
            lemma_closed_before_new(prev.1[a], cells[i - 2], cell, size);
        }
    }
    assert forall|a: int| 0 <= a < runs.len() implies i > 0 && run_frontier(
        #[trigger] runs[a],
        cells[i - 1],
    ) by {
        if a < np {
            assert(i - 1 > 0 && run_frontier(runs_prev[a], cells[i - 2]));
            assert(cell_before(cells[i - 2], cell));
            lemma_frontier_step(runs_prev[a], cells[i - 2], cell);
        }
    }
    assert forall|a: int| 0 <= a < st.1.len() implies i > 0 && run_behind(
        #[trigger] st.1[a],
        cells[i - 1],
        size,
    ) by {
        assert(st.1[a] == prev.1[a]);
        assert(i - 1 > 0 && run_behind(prev.1[a], cells[i - 2], size));
        assert(cell_before(cells[i - 2], cell));
        lemma_behind_step(prev.1[a], cells[i - 2], cell, size);
    }
    assert forall|a: int| 0 <= a < st.1.len() implies no_extension_right(
        cells,
        i,
        #[trigger] st.1[a],
        flag,
    ) by {
        assert(st.1[a] == prev.1[a]);
        assert(no_extension_right(cells, i - 1, prev.1[a], flag));
        assert(i - 1 > 0 && run_behind(prev.1[a], cells[i - 2], size));
        assert(cell_before(cells[i - 2], cell));
        lemma_no_ext_step(cells, i, prev.1[a], flag, size);
    }
    assert forall|k: int| 0 <= k < i && flag.set_in((#[trigger] cells[k]).flags) implies exists|a: int|
        0 <= a < all_runs(cells, i, flag, size).len() && covers(
            #[trigger] all_runs(cells, i, flag, size)[a],
            cells[k].line as int,
            cells[k].column as int,
        ) by {
        if k < i - 1 {
            let a0 = choose|a: int|
                0 <= a < runs_prev.len() && covers(
                    #[trigger] runs_prev[a],
                    cells[k].line as int,
                    cells[k].column as int,
                );
            assert(covers(runs[a0], cells[k].line as int, cells[k].column as int));
        } else {
            assert(runs[runs.len() - 1] == (cell, cell.point_spec()));
            assert(covers(runs[runs.len() - 1], cell.line as int, cell.column as int));
        }
    }
}

} // verus!
