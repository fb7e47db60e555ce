//! Decoration rectangles for underline and strikeout: consecutive styled
//! cells are merged into maximal runs, and each run is flushed as one
//! axis-aligned rectangle in integer device pixels.
//!
//! The accumulator is rebuilt fresh each frame. Cells are fed in
//! left-to-right, top-to-bottom scan order; a run is flushed when a cell
//! breaks it (row change, flag cleared, foreground change, or a column gap)
//! or when the run reaches the last column of the last row, where no further
//! cell will arrive to close it.

use vstd::prelude::*;
use crate::term::{Point, RenderableCell, Rgb, SizeInfo, CellFlags};

verus! {

/// The decoration flags that are tracked as line runs. The set is closed:
/// rectangle construction is total over it, so no unreachable flag case
/// exists at run time.
#[derive(Clone, Copy, Debug, PartialEq, Eq, Structural)]
pub enum LineFlag {
    Underline,
    Strikeout,
}

impl LineFlag {
    /// Whether this flag is set on the given cell flags.
    pub open spec fn set_in(self, flags: CellFlags) -> bool {
        match self {
            LineFlag::Underline => flags.underline,
            LineFlag::Strikeout => flags.strikeout,
        }
    }

    pub fn is_set(&self, flags: &CellFlags) -> (r: bool)
        ensures
            r == self.set_in(*flags),
    {
        match self {
            LineFlag::Underline => flags.underline,
            LineFlag::Strikeout => flags.strikeout,
        }
    }
}

/// Font metrics that decoration geometry reads, in integer device pixels.
/// Positions are offsets above the baseline; the descent is how far the cell
/// bottom lies below the baseline (usually negative).
#[derive(Clone, Copy, Debug, PartialEq, Eq, Structural)]
pub struct Metrics {
    pub underline_position: i32,
    pub underline_thickness: i32,
    pub strikeout_position: i32,
    pub strikeout_thickness: i32,
    pub descent: i32,
}

/// An axis-aligned rectangle with an origin and an extent.
#[derive(Clone, Copy, Debug, PartialEq)]
pub struct Rect<T> {
    pub x: T,
    pub y: T,
    pub width: T,
    pub height: T,
}

impl<T> Rect<T> {
    pub fn new(x: T, y: T, width: T, height: T) -> (r: Self)
        ensures
            r.x == x,
            r.y == y,
            r.width == width,
            r.height == height,
    {
        Rect { x, y, width, height }
    }
}

/// The open run of one tracked flag: `None` when no run is open, otherwise
/// the starting cell and the grid position the run currently ends on.
#[derive(Clone, Copy, Debug, PartialEq)]
pub struct Line {
    pub flag: LineFlag,
    pub range: Option<(RenderableCell, Point)>,
}

impl Line {
    pub fn new(flag: LineFlag) -> (r: Self)
        ensures
            r.flag == flag,
            r.range.is_none(),
    {
        Line { flag, range: None }
    }
}

/// The position above the baseline and the thickness that the given flag's
/// rectangle derives from the font metrics.
pub open spec fn flag_metrics_spec(flag: LineFlag, m: Metrics) -> (int, int) {
    match flag {
        LineFlag::Underline => (m.underline_position as int, m.underline_thickness as int),
        LineFlag::Strikeout => (m.strikeout_position as int, m.strikeout_thickness as int),
    }
}

/// The rectangle of a flushed run. The run starts on the left edge of
/// `start` and ends on the right edge of `end`; the thickness is floored at
/// one pixel so lines stay visible, and the vertical position is clamped so
/// the rectangle never extends below the bottom edge of the cell's row.
pub open spec fn rect_spec(
    start: RenderableCell,
    end: Point,
    flag: LineFlag,
    m: Metrics,
    size: SizeInfo,
    offset: (i32, i32),
) -> Rect<i64> {
    let start_x = start.column * size.cell_width;
    let run_width = (end.col + 1 - start.column) * size.cell_width;
    let pt = flag_metrics_spec(flag, m);
    let height = if pt.1 < 1 { 1int } else { pt.1 };
    let cell_bottom = (start.line + 1) * size.cell_height;
    let baseline = cell_bottom + m.descent;
    let y_raw = baseline - pt.0 - height / 2;
    let y_max = cell_bottom - height;
    let y_clamped = if y_raw > y_max { y_max } else { y_raw };
    Rect {
        x: (start_x + size.padding_x + offset.0) as i64,
        y: (y_clamped + size.padding_y + offset.1) as i64,
        width: run_width as i64,
        height: height as i64,
    }
}

/// In-grid bounds that every stored or flushed run satisfies.
pub open spec fn run_wf(start: RenderableCell, end: Point, size: SizeInfo) -> bool {
    &&& start.line == end.line
    &&& start.line < size.lines_spec()
    &&& start.column <= end.col < size.cols_spec()
}

pub proof fn lemma_grid_products(size: SizeInfo)
    requires
        size.wf(),
    ensures
        size.cols_spec() * size.cell_width <= size.width,
        size.lines_spec() * size.cell_height <= size.height,
        0 <= size.cols_spec() <= size.width,
        0 <= size.lines_spec() <= size.height,
{
    let w = size.width as int;
    let h = size.height as int;
    let cw = size.cell_width as int;
    let ch = size.cell_height as int;
    if 2 * size.padding_x <= size.width {
        let avail = w - 2 * size.padding_x;
        vstd::arithmetic::div_mod::lemma_fundamental_div_mod(avail, cw);
        vstd::arithmetic::div_mod::lemma_mod_bound(avail, cw);
        assert(size.cols_spec() == avail / cw);
        assert((avail / cw) * cw == cw * (avail / cw)) by (nonlinear_arith);
        assert(size.cols_spec() * cw <= avail);
    }
    if 2 * size.padding_y <= size.height {
        let avail = h - 2 * size.padding_y;
        vstd::arithmetic::div_mod::lemma_fundamental_div_mod(avail, ch);
        vstd::arithmetic::div_mod::lemma_mod_bound(avail, ch);
        assert(size.lines_spec() == avail / ch);
        assert((avail / ch) * ch == ch * (avail / ch)) by (nonlinear_arith);
        assert(size.lines_spec() * ch <= avail);
    } else {
        assert(size.lines_spec() == 0);
        assert(size.lines_spec() * ch == 0) by (nonlinear_arith)
            requires size.lines_spec() == 0;
    }
    assert(size.cols_spec() * 1 <= size.cols_spec() * cw) by (nonlinear_arith)
        requires 1 <= cw && 0 <= size.cols_spec();
    assert(size.lines_spec() * 1 <= size.lines_spec() * ch) by (nonlinear_arith)
        requires 1 <= ch && 0 <= size.lines_spec();
}

proof fn lemma_run_products(start: RenderableCell, end: Point, size: SizeInfo)
    requires
        size.wf(),
        run_wf(start, end, size),
    ensures
        0 <= start.column * size.cell_width <= size.width,
        0 < (end.col + 1 - start.column) * size.cell_width <= size.width,
        0 < (start.line + 1) * size.cell_height <= size.height,
{
    lemma_grid_products(size);
    let cw = size.cell_width as int;
    let ch = size.cell_height as int;
    let cols = size.cols_spec();
    let lines = size.lines_spec();
    vstd::arithmetic::mul::lemma_mul_inequality(start.column as int, cols, cw);
    vstd::arithmetic::mul::lemma_mul_inequality(end.col + 1, cols, cw);
    vstd::arithmetic::mul::lemma_mul_inequality(start.line + 1, lines, ch);
    assert(0 < (end.col + 1 - start.column) * cw) by (nonlinear_arith)
        requires 0 < cw && 0 < end.col + 1 - start.column;
    assert((end.col + 1 - start.column) * cw <= (end.col + 1) * cw) by (nonlinear_arith)
        requires 0 < cw && 0 <= start.column;
    assert(0 < (start.line + 1) * ch) by (nonlinear_arith)
        requires 0 < ch && 0 < start.line + 1;
}

/// Builds the rectangle of one flushed run.
fn create_rect(
    start: &RenderableCell,
    end: Point,
    flag: LineFlag,
    metrics: &Metrics,
    size: &SizeInfo,
    offset: (i32, i32),
) -> (r: (Rect<i64>, Rgb))
    requires
        size.wf(),
        run_wf(*start, end, *size),
    ensures
        r.0 == rect_spec(*start, end, flag, *metrics, *size, offset),
        r.1 == start.fg,
{
    proof {
        lemma_run_products(*start, end, *size);
    }
    let start_x: i64 = (start.column as i64) * (size.cell_width as i64);
    let run_width: i64 = (end.col as i64 + 1 - start.column as i64) * (size.cell_width as i64);

    let (position, thickness): (i32, i32) = match flag {
        LineFlag::Underline => (metrics.underline_position, metrics.underline_thickness),
        LineFlag::Strikeout => (metrics.strikeout_position, metrics.strikeout_thickness),
    };

    // Make sure lines are always visible.
    let height: i64 = if thickness < 1 {
        1
    } else {
        thickness as i64
    };

    let cell_bottom: i64 = (start.line as i64 + 1) * (size.cell_height as i64);
    let baseline: i64 = cell_bottom + metrics.descent as i64;

    let mut y: i64 = baseline - position as i64 - height / 2;
    let max_y: i64 = cell_bottom - height;
    if y > max_y {
        y = max_y;
    }

    let rect = Rect::new(
        start_x + size.padding_x as i64 + offset.0 as i64,
        y + size.padding_y as i64 + offset.1 as i64,
        run_width,
        height,
    );
    (rect, start.fg)
}

/// Whether `cell` continues the open run `(start, end)` for `flag`: same
/// terminal row, flag still set, same foreground color, and exactly one
/// column past the run's current end.
pub open spec fn continues_run(cell: RenderableCell, start: RenderableCell, end: Point, flag: LineFlag) -> bool {
    &&& cell.line == start.line
    &&& flag.set_in(cell.flags)
    &&& cell.fg == start.fg
    &&& cell.column == end.col + 1
}

/// Whether `cell` is the last column of the last row of the grid, after
/// which no further cell will arrive.
pub open spec fn at_grid_end(cell: RenderableCell, size: SizeInfo) -> bool {
    cell.column + 1 == size.cols_spec() && cell.line + 1 == size.lines_spec()
}

/// One step of the run-merging algorithm for one tracked flag: the new open
/// run, and the run flushed by this cell, if any.
pub open spec fn step_line_spec(l: Line, cell: RenderableCell, size: SizeInfo) -> (
    Line,
    Option<(RenderableCell, Point)>,
) {
    match l.range {
        Some((start, end)) => {
            if continues_run(cell, start, end, l.flag) {
                if at_grid_end(cell, size) {
                    // The run reaches the end of the terminal: flush at once.
                    (Line { flag: l.flag, range: None }, Some((start, cell.point_spec())))
                } else {
                    (Line { flag: l.flag, range: Some((start, cell.point_spec())) }, None)
                }
            } else {
                // The run ends here; a new one starts if the cell sets the flag.
                if l.flag.set_in(cell.flags) {
                    (
                        Line { flag: l.flag, range: Some((cell, cell.point_spec())) },
                        Some((start, end)),
                    )
                } else {
                    (Line { flag: l.flag, range: None }, Some((start, end)))
                }
            }
        },
        None => {
            if l.flag.set_in(cell.flags) {
                (Line { flag: l.flag, range: Some((cell, cell.point_spec())) }, None)
            } else {
                (l, None)
            }
        },
    }
}

/// The rectangles a flushed run contributes: one, or none.
pub open spec fn flush_rects(
    flushed: Option<(RenderableCell, Point)>,
    flag: LineFlag,
    m: Metrics,
    size: SizeInfo,
    offset: (i32, i32),
) -> Seq<(Rect<i64>, Rgb)> {
    match flushed {
        Some((s, e)) => seq![(rect_spec(s, e, flag, m, size, offset), s.fg)],
        None => Seq::empty(),
    }
}

/// The rectangles flushed by one cell across the first `i` tracked flags.
pub open spec fn flushed_upto(
    lines: Seq<Line>,
    i: int,
    cell: RenderableCell,
    m: Metrics,
    size: SizeInfo,
    offset: (i32, i32),
) -> Seq<(Rect<i64>, Rgb)>
    decreases i,
{
    if i <= 0 {
        Seq::empty()
    } else {
        flushed_upto(lines, i - 1, cell, m, size, offset) + flush_rects(
            step_line_spec(lines[i - 1], cell, size).1,
            lines[i - 1].flag,
            m,
            size,
            offset,
        )
    }
}

/// Decoration accumulator for one frame: the rectangles flushed so far and
/// the open run of each tracked flag.
pub struct Rects {
    pub inner: Vec<(Rect<i64>, Rgb)>,
    pub active_lines: Vec<Line>,
    pub metrics: Metrics,
    pub size: SizeInfo,
}

impl Rects {
    /// Internal invariant: the grid geometry is well formed, exactly the two
    /// tracked flags are present, and every open run lies inside the grid.
    pub open spec fn wf(self) -> bool {
        &&& self.size.wf()
        &&& self.active_lines@.len() == 2
        &&& self.active_lines@[0].flag == LineFlag::Underline
        &&& self.active_lines@[1].flag == LineFlag::Strikeout
        &&& forall|i: int|
            0 <= i < self.active_lines@.len() ==> line_wf(#[trigger] self.active_lines@[i], self.size)
    }

    pub fn new(metrics: &Metrics, size: &SizeInfo) -> (r: Self)
        requires
            size.wf(),
        ensures
            r.wf(),
            r.inner@.len() == 0,
            r.active_lines@[0].range.is_none(),
            r.active_lines@[1].range.is_none(),
            r.metrics == *metrics,
            r.size == *size,
    {
        let active_lines = vec![Line::new(LineFlag::Underline), Line::new(LineFlag::Strikeout)];
        Rects { inner: Vec::new(), active_lines, metrics: *metrics, size: *size }
    }

    /// The rectangles accumulated for this frame, in flush order.
    pub fn rects(&self) -> (r: &Vec<(Rect<i64>, Rgb)>)
        ensures
            r == &self.inner,
    {
        &self.inner
    }

    pub fn size(&self) -> (r: &SizeInfo)
        ensures
            r == &self.size,
    {
        &self.size
    }

    pub fn metrics(&self) -> (r: &Metrics)
        ensures
            r == &self.metrics,
    {
        &self.metrics
    }

    /// Feeds the next cell of the scan to every tracked flag: runs are
    /// extended, flushed, or started as the cell demands. `size_info` is the
    /// geometry of the frame being drawn and must be the one the accumulator
    /// was built with.
    pub fn update_lines(&mut self, size_info: &SizeInfo, cell: &RenderableCell, offset: (i32, i32))
        requires
            old(self).wf(),
            *size_info == old(self).size,
            old(self).size.contains_cell(cell.line as int, cell.column as int),
        ensures
            final(self).wf(),
            final(self).size == old(self).size,
            final(self).metrics == old(self).metrics,
            final(self).active_lines@.len() == old(self).active_lines@.len(),
            forall|i: int|
                0 <= i < final(self).active_lines@.len() ==> #[trigger] final(self).active_lines@[i]
                    == step_line_spec(old(self).active_lines@[i], *cell, old(self).size).0,
            final(self).inner@ =~= old(self).inner@ + flushed_upto(
                old(self).active_lines@,
                old(self).active_lines@.len() as int,
                *cell,
                old(self).metrics,
                old(self).size,
                offset,
            ),
    {
        let n = self.active_lines.len();
        let mut i: usize = 0;
        while i < n
            invariant
                old(self).wf(),
                n == old(self).active_lines@.len(),
                i <= n,
                self.size == old(self).size,
                self.metrics == old(self).metrics,
                self.active_lines@.len() == n,
                old(self).size.contains_cell(cell.line as int, cell.column as int),
                forall|j: int|
                    0 <= j < i ==> #[trigger] self.active_lines@[j]
                        == step_line_spec(old(self).active_lines@[j], *cell, old(self).size).0,
                forall|j: int|
                    i <= j < n ==> #[trigger] self.active_lines@[j] == old(self).active_lines@[j],
                self.inner@ =~= old(self).inner@ + flushed_upto(
                    old(self).active_lines@,
                    i as int,
                    *cell,
                    old(self).metrics,
                    old(self).size,
                    offset,
                ),
            decreases n - i,
        {
            let line = self.active_lines[i];
            let flag = line.flag;
            match line.range {
                Some((start, end)) => {
                    if cell.line == start.line && flag.is_set(&cell.flags) && cell.fg == start.fg
                        && cell.column == end.col + 1 {
                        let cols = self.size.cols();
                        let lines_n = self.size.lines();
                        if cell.column + 1 == cols && cell.line + 1 == lines_n {
                            // The end of the terminal: flush the run at once.
                            let r = create_rect(
                                &start,
                                cell.point(),
                                flag,
                                &self.metrics,
                                &self.size,
                                offset,
                            );
                            self.inner.push(r);
                            self.active_lines.set(i, Line { flag, range: None });
                        } else {
                            // Extend the run's end to this cell.
                            self.active_lines.set(
                                i,
                                Line { flag, range: Some((start, cell.point())) },
                            );
                        }
                    } else {
                        // The run ends: flush it, and start anew if the flag is set.
                        let r = create_rect(&start, end, flag, &self.metrics, &self.size, offset);
                        self.inner.push(r);
                        if flag.is_set(&cell.flags) {
                            self.active_lines.set(
                                i,
                                Line { flag, range: Some((*cell, cell.point())) },
                            );
                        } else {
                            self.active_lines.set(i, Line { flag, range: None });
                        }
                    }
                },
                None => {
                    if flag.is_set(&cell.flags) {
                        self.active_lines.set(i, Line { flag, range: Some((*cell, cell.point())) });
                    }
                },
            }
            i = i + 1;
        }
    }

    /// Appends an externally constructed rectangle, bypassing the merge
    /// logic (used for the message-bar background).
    pub fn push(&mut self, rect: Rect<i64>, color: Rgb)
        ensures
            final(self).inner@ =~= old(self).inner@.push((rect, color)),
            final(self).active_lines == old(self).active_lines,
            final(self).metrics == old(self).metrics,
            final(self).size == old(self).size,
    {
        self.inner.push((rect, color));
    }
}

/// In-grid bound of one tracked flag's open run.
pub open spec fn line_wf(l: Line, size: SizeInfo) -> bool {
    match l.range {
        Some((start, end)) => run_wf(start, end, size),
        None => true,
    }
}

/// The background rectangle of a message bar occupying the bottom
/// `line_count` grid lines: from the top of its first line down to the
/// bottom edge of the viewport, over the full width.
pub open spec fn message_bar_rect_spec(size: SizeInfo, line_count: usize) -> Rect<i64> {
    let start_line = size.lines_spec() - line_count;
    let y = size.padding_y + size.cell_height * start_line;
    Rect { x: 0, y: y as i64, width: size.width as i64, height: (size.height - y) as i64 }
}

/// Builds the message bar's background rectangle. A message occupies at
/// least one line, so the grid is not degenerate.
pub fn message_bar_rect(size: &SizeInfo, line_count: usize) -> (r: Rect<i64>)
    requires
        size.wf(),
        1 <= line_count <= size.lines_spec(),
    ensures
        r == message_bar_rect_spec(*size, line_count),
{
    proof {
        lemma_grid_products(*size);
        assert(2 * size.padding_y <= size.height);
        let h = size.height as int;
        let ch = size.cell_height as int;
        let avail = h - 2 * size.padding_y;
        vstd::arithmetic::div_mod::lemma_fundamental_div_mod(avail, ch);
        vstd::arithmetic::div_mod::lemma_mod_bound(avail, ch);
        assert((avail / ch) * ch == ch * (avail / ch)) by (nonlinear_arith);
        assert(size.lines_spec() * ch <= avail);
        let start_line = size.lines_spec() - line_count;
        vstd::arithmetic::mul::lemma_mul_inequality(start_line, size.lines_spec(), ch);
        assert(0 <= start_line * ch) by (nonlinear_arith)
            requires 0 <= start_line && 0 < ch;
        assert(start_line * ch == ch * start_line) by (nonlinear_arith);
    }
    let lines_n = size.lines();
    let start_line: u64 = (lines_n - line_count) as u64;
    let y: u64 = size.padding_y as u64 + size.cell_height as u64 * start_line;
    Rect {
        x: 0,
        y: y as i64,
        width: size.width as i64,
        height: (size.height as u64 - y) as i64,
    }
}

/// The two tracked-flag states after the first `i` cells of a frame's scan.
pub open spec fn frame_lines(cells: Seq<RenderableCell>, i: int, size: SizeInfo) -> (Line, Line)
    decreases i,
{
    if i <= 0 {
        (
            Line { flag: LineFlag::Underline, range: None },
            Line { flag: LineFlag::Strikeout, range: None },
        )
    } else {
        let prev = frame_lines(cells, i - 1, size);
        (
            step_line_spec(prev.0, cells[i - 1], size).0,
            step_line_spec(prev.1, cells[i - 1], size).0,
        )
    }
}

/// The rectangles flushed by the first `i` cells of a frame's scan, in
/// flush order.
pub open spec fn frame_rects(
    cells: Seq<RenderableCell>,
    i: int,
    m: Metrics,
    size: SizeInfo,
    offset: (i32, i32),
) -> Seq<(Rect<i64>, Rgb)>
    decreases i,
{
    if i <= 0 {
        Seq::empty()
    } else {
        let prev = frame_lines(cells, i - 1, size);
        frame_rects(cells, i - 1, m, size, offset) + flushed_upto(
            seq![prev.0, prev.1],
            2,
            cells[i - 1],
            m,
            size,
            offset,
        )
    }
}

/// Whether every cell lies inside the grid of `size`.
pub open spec fn cells_in_grid(cells: Seq<RenderableCell>, size: SizeInfo) -> bool {
    forall|i: int|
        0 <= i < cells.len() ==> size.contains_cell(
            (#[trigger] cells[i]).line as int,
            cells[i].column as int,
        )
}

/// One frame's rectangle pass over a render snapshot: feeds every visible
/// cell to the accumulator in scan order, then appends the message bar's
/// background rectangle when the snapshot carries a message.
pub fn build_frame_rects(
    metrics: &Metrics,
    size: &SizeInfo,
    update: &crate::display::RenderUpdate,
    offset: (i32, i32),
) -> (r: Rects)
    requires
        size.wf(),
        cells_in_grid(update.grid_cells@, *size),
        update.message.is_some() ==> 1 <= update.message.unwrap().line_count <= size.lines_spec(),
    ensures
        r.wf(),
        r.size == *size,
        r.metrics == *metrics,
        r.inner@ =~= ({
            let merged = frame_rects(
                update.grid_cells@,
                update.grid_cells@.len() as int,
                *metrics,
                *size,
                offset,
            );
            match update.message {
                Some(msg) => merged.push((message_bar_rect_spec(*size, msg.line_count), msg.color)),
                None => merged,
            }
        }),
{
    let cells = &update.grid_cells;
    let message = update.message;
    let mut rects = Rects::new(metrics, size);
    let n = cells.len();
    let mut i: usize = 0;
    while i < n
        invariant
            size.wf(),
            n == cells@.len(),
            i <= n,
            cells_in_grid(cells@, *size),
            rects.wf(),
            rects.size == *size,
            rects.metrics == *metrics,
            rects.active_lines@.len() == 2,
            rects.active_lines@[0] == frame_lines(cells@, i as int, *size).0,
            rects.active_lines@[1] == frame_lines(cells@, i as int, *size).1,
            rects.inner@ =~= frame_rects(cells@, i as int, *metrics, *size, offset),
        decreases n - i,
    {
        let ghost pre = rects;
        let cell = cells[i];
        rects.update_lines(size, &cell, offset);
        proof {
            let lu = frame_lines(cells@, i as int, *size).0;
            let ls = frame_lines(cells@, i as int, *size).1;
            assert(pre.active_lines@ =~= seq![lu, ls]);
            assert(frame_lines(cells@, i + 1, *size).0 == step_line_spec(lu, cells@[i as int], *size).0);
            assert(frame_lines(cells@, i + 1, *size).1 == step_line_spec(ls, cells@[i as int], *size).0);
            assert(rects.inner@ =~= frame_rects(cells@, i + 1, *metrics, *size, offset));
        }
        i = i + 1;
    }
    match message {
        Some(msg) => {
            let rect = message_bar_rect(size, msg.line_count);
            rects.push(rect, msg.color);
        },
        None => {},
    }
    rects
}

} // verus!
