//! Plain data handed to the renderer each frame: cell positions, colors,
//! style flags, and the authoritative size/padding state of the display.
//!
//! All geometry is in integer device pixels. The device pixel ratio is kept
//! as a fixed-point value in thousandths, so that comparisons and rescaling
//! are exact.

use vstd::prelude::*;

verus! {

/// Upper bound on the device pixel ratio, in thousandths (a ratio of 10000).
pub const DPR_MILLI_MAX: u32 = 10_000_000;

/// An RGB color as carried on each renderable cell.
#[derive(Clone, Copy, Debug, PartialEq, Eq, Structural)]
pub struct Rgb {
    pub r: u8,
    pub g: u8,
    pub b: u8,
}

/// A position in the terminal grid: zero-based row (line) and column.
#[derive(Clone, Copy, Debug, PartialEq, Eq, Structural)]
pub struct Point {
    pub line: usize,
    pub col: usize,
}

/// The style flags of a cell that decoration drawing reads. Flags irrelevant
/// to decoration are not carried here.
#[derive(Clone, Copy, Debug, PartialEq, Eq, Structural)]
pub struct CellFlags {
    pub underline: bool,
    pub strikeout: bool,
}

/// One cell of the visible grid, as handed to the renderer each frame.
#[derive(Clone, Copy, Debug, PartialEq, Eq, Structural)]
pub struct RenderableCell {
    pub line: usize,
    pub column: usize,
    pub fg: Rgb,
    pub flags: CellFlags,
}

impl RenderableCell {
    /// The grid position of this cell.
    pub open spec fn point_spec(self) -> Point {
        Point { line: self.line, col: self.column }
    }

    pub fn point(&self) -> (r: Point)
        ensures
            r == self.point_spec(),
    {
        Point { line: self.line, col: self.column }
    }
}

/// A window size in integer device pixels.
#[derive(Clone, Copy, Debug, PartialEq, Eq, Structural)]
pub struct WindowSize {
    pub width: u32,
    pub height: u32,
}

/// A status message shown in the bar at the bottom of the grid, as the
/// renderer sees it: how many grid lines its wrapped text occupies and its
/// background color.
#[derive(Clone, Copy, Debug, PartialEq, Eq, Structural)]
pub struct BarMessage {
    pub line_count: usize,
    pub color: Rgb,
}

/// The single source of truth for coordinate transforms: viewport size, cell
/// metrics, padding and device pixel ratio, all in integer device pixels.
#[derive(Clone, Copy, Debug, PartialEq, Eq, Structural)]
pub struct SizeInfo {
    pub width: u32,
    pub height: u32,
    pub cell_width: u32,
    pub cell_height: u32,
    pub padding_x: u32,
    pub padding_y: u32,
    /// Device pixel ratio in thousandths (1000 is a ratio of one).
    pub dpr_milli: u32,
}

impl SizeInfo {
    /// Internal invariant: cell dimensions are positive and the device pixel
    /// ratio is positive and bounded.
    pub open spec fn wf(self) -> bool {
        &&& self.cell_width > 0
        &&& self.cell_height > 0
        &&& 0 < self.dpr_milli <= DPR_MILLI_MAX
    }

    /// Number of whole cell columns that fit beside the horizontal padding.
    pub open spec fn cols_spec(self) -> int {
        if 2 * self.padding_x <= self.width {
            (self.width - 2 * self.padding_x) as int / self.cell_width as int
        } else {
            0
        }
    }

    /// Number of whole cell rows that fit beside the vertical padding.
    pub open spec fn lines_spec(self) -> int {
        if 2 * self.padding_y <= self.height {
            (self.height - 2 * self.padding_y) as int / self.cell_height as int
        } else {
            0
        }
    }

    pub fn cols(&self) -> (r: usize)
        requires
            self.wf(),
        ensures
            r == self.cols_spec(),
    {
        let w = self.width as u64;
        let p2 = 2 * (self.padding_x as u64);
        if p2 <= w {
            ((w - p2) / (self.cell_width as u64)) as usize
        } else {
            0
        }
    }

    pub fn lines(&self) -> (r: usize)
        requires
            self.wf(),
        ensures
            r == self.lines_spec(),
    {
        let h = self.height as u64;
        let p2 = 2 * (self.padding_y as u64);
        if p2 <= h {
            ((h - p2) / (self.cell_height as u64)) as usize
        } else {
            0
        }
    }

    /// Whether a cell position lies inside the visible grid.
    pub open spec fn contains_cell(self, line: int, col: int) -> bool {
        0 <= line < self.lines_spec() && 0 <= col < self.cols_spec()
    }
}

} // verus!
