use term_display::display::RenderUpdate;
use term_display::rects::{build_frame_rects, message_bar_rect, Line, LineFlag, Metrics, Rect, Rects};
use term_display::term::{BarMessage, CellFlags, RenderableCell, Rgb, SizeInfo};

fn size_800x600() -> SizeInfo {
    SizeInfo {
        width: 800,
        height: 600,
        cell_width: 8,
        cell_height: 16,
        padding_x: 0,
        padding_y: 0,
        dpr_milli: 1000,
    }
}

fn metrics() -> Metrics {
    Metrics {
        underline_position: 2,
        underline_thickness: 1,
        strikeout_position: 6,
        strikeout_thickness: 2,
        descent: -4,
    }
}

const RED: Rgb = Rgb { r: 255, g: 0, b: 0 };
const BLUE: Rgb = Rgb { r: 0, g: 0, b: 255 };

fn cell(line: usize, column: usize, fg: Rgb, underline: bool, strikeout: bool) -> RenderableCell {
    RenderableCell { line, column, fg, flags: CellFlags { underline, strikeout } }
}

#[test]
fn rect_new_stores_fields() {
    let r = Rect::new(1i64, 2i64, 3i64, 4i64);
    assert_eq!(r.x, 1);
    assert_eq!(r.y, 2);
    assert_eq!(r.width, 3);
    assert_eq!(r.height, 4);
}

#[test]
fn line_new_starts_closed() {
    let l = Line::new(LineFlag::Underline);
    assert_eq!(l.flag, LineFlag::Underline);
    assert!(l.range.is_none());
}

#[test]
fn empty_grid_yields_no_rects() {
    let size = size_800x600();
    let m = metrics();
    let rects = Rects::new(&m, &size);
    assert_eq!(rects.rects().len(), 0);
    assert_eq!(*rects.size(), size);
    assert_eq!(*rects.metrics(), m);
}

#[test]
fn two_cell_underline_run_merges_into_one_rect() {
    let size = size_800x600();
    let m = metrics();
    let mut rects = Rects::new(&m, &size);
    rects.update_lines(&size, &cell(0, 0, RED, true, false), (0, 0));
    rects.update_lines(&size, &cell(0, 1, RED, true, false), (0, 0));
    rects.update_lines(&size, &cell(0, 2, RED, false, false), (0, 0));
    let out = rects.rects();
    assert_eq!(out.len(), 1);
    let (r, color) = out[0];
    // Spans columns 0 and 1: x = 0, width = 2 cells.
    assert_eq!(r.x, 0);
    assert_eq!(r.width, 16);
    // baseline 16 - 4 = 12; y = 12 - 2 - 1/2 = 10; below the clamp of 15.
    assert_eq!(r.y, 10);
    assert_eq!(r.height, 1);
    assert_eq!(color, RED);
}

#[test]
fn foreground_change_splits_the_run() {
    let size = size_800x600();
    let m = metrics();
    let mut rects = Rects::new(&m, &size);
    rects.update_lines(&size, &cell(0, 0, RED, true, false), (0, 0));
    rects.update_lines(&size, &cell(0, 1, BLUE, true, false), (0, 0));
    rects.update_lines(&size, &cell(0, 2, RED, false, false), (0, 0));
    let out = rects.rects();
    assert_eq!(out.len(), 2);
    assert_eq!(out[0].0.x, 0);
    assert_eq!(out[0].0.width, 8);
    assert_eq!(out[0].1, RED);
    assert_eq!(out[1].0.x, 8);
    assert_eq!(out[1].0.width, 8);
    assert_eq!(out[1].1, BLUE);
}

#[test]
fn run_reaching_grid_end_flushes_without_following_cell() {
    // Grid of 2 columns and 1 row.
    let size = SizeInfo {
        width: 16,
        height: 16,
        cell_width: 8,
        cell_height: 16,
        padding_x: 0,
        padding_y: 0,
        dpr_milli: 1000,
    };
    let m = metrics();
    let mut rects = Rects::new(&m, &size);
    rects.update_lines(&size, &cell(0, 0, RED, true, false), (0, 0));
    rects.update_lines(&size, &cell(0, 1, RED, true, false), (0, 0));
    let out = rects.rects();
    assert_eq!(out.len(), 1);
    assert_eq!(out[0].0.x, 0);
    assert_eq!(out[0].0.width, 16);
    assert_eq!(out[0].1, RED);
}

#[test]
fn one_cell_run_flushes_one_cell_wide() {
    let size = size_800x600();
    let m = metrics();
    let mut rects = Rects::new(&m, &size);
    rects.update_lines(&size, &cell(0, 0, RED, true, false), (0, 0));
    rects.update_lines(&size, &cell(0, 1, RED, false, false), (0, 0));
    let out = rects.rects();
    assert_eq!(out.len(), 1);
    assert_eq!(out[0].0.width, 8);
}

#[test]
fn column_gap_splits_the_run() {
    let size = size_800x600();
    let m = metrics();
    let mut rects = Rects::new(&m, &size);
    rects.update_lines(&size, &cell(0, 0, RED, true, false), (0, 0));
    rects.update_lines(&size, &cell(0, 5, RED, true, false), (0, 0));
    rects.update_lines(&size, &cell(0, 6, RED, false, false), (0, 0));
    let out = rects.rects();
    assert_eq!(out.len(), 2);
    assert_eq!(out[0].0.x, 0);
    assert_eq!(out[0].0.width, 8);
    assert_eq!(out[1].0.x, 40);
    assert_eq!(out[1].0.width, 8);
}

#[test]
fn strikeout_rect_uses_strikeout_metrics() {
    let size = size_800x600();
    let m = metrics();
    let mut rects = Rects::new(&m, &size);
    rects.update_lines(&size, &cell(0, 0, RED, false, true), (0, 0));
    rects.update_lines(&size, &cell(0, 1, RED, false, false), (0, 0));
    let out = rects.rects();
    assert_eq!(out.len(), 1);
    // baseline 12; height 2; y = 12 - 6 - 1 = 5.
    assert_eq!(out[0].0.y, 5);
    assert_eq!(out[0].0.height, 2);
}

#[test]
fn thickness_is_floored_at_one_pixel() {
    let size = size_800x600();
    let m = Metrics {
        underline_position: 2,
        underline_thickness: 0,
        strikeout_position: 6,
        strikeout_thickness: 2,
        descent: -4,
    };
    let mut rects = Rects::new(&m, &size);
    rects.update_lines(&size, &cell(0, 0, RED, true, false), (0, 0));
    rects.update_lines(&size, &cell(0, 1, RED, false, false), (0, 0));
    assert_eq!(rects.rects()[0].0.height, 1);
}

#[test]
fn rect_is_clamped_to_the_cell_bottom() {
    let size = size_800x600();
    let m = Metrics {
        underline_position: -20,
        underline_thickness: 1,
        strikeout_position: 6,
        strikeout_thickness: 2,
        descent: -4,
    };
    let mut rects = Rects::new(&m, &size);
    rects.update_lines(&size, &cell(0, 0, RED, true, false), (0, 0));
    rects.update_lines(&size, &cell(0, 1, RED, false, false), (0, 0));
    // Raw y would be 12 + 20 - 0 = 32; the clamp is 16 - 1 = 15.
    assert_eq!(rects.rects()[0].0.y, 15);
}

#[test]
fn offset_and_padding_shift_the_rect() {
    let size = SizeInfo {
        width: 800,
        height: 600,
        cell_width: 8,
        cell_height: 16,
        padding_x: 4,
        padding_y: 5,
        dpr_milli: 1000,
    };
    let m = metrics();
    let mut rects = Rects::new(&m, &size);
    rects.update_lines(&size, &cell(0, 1, RED, true, false), (3, 7));
    rects.update_lines(&size, &cell(0, 2, RED, false, false), (3, 7));
    let out = rects.rects();
    // x = 1*8 + 4 + 3; y = 10 + 5 + 7.
    assert_eq!(out[0].0.x, 15);
    assert_eq!(out[0].0.y, 22);
}

#[test]
fn push_bypasses_the_merge_logic() {
    let size = size_800x600();
    let m = metrics();
    let mut rects = Rects::new(&m, &size);
    let r = Rect::new(1i64, 2i64, 3i64, 4i64);
    rects.push(r, BLUE);
    assert_eq!(rects.rects().len(), 1);
    assert_eq!(rects.rects()[0].1, BLUE);
}

#[test]
fn message_bar_rect_formula() {
    let size = SizeInfo {
        width: 800,
        height: 600,
        cell_width: 8,
        cell_height: 16,
        padding_x: 4,
        padding_y: 5,
        dpr_milli: 1000,
    };
    // lines = (600 - 10) / 16 = 36; start line 34; y = 5 + 16*34 = 549.
    let r = message_bar_rect(&size, 2);
    assert_eq!(r.x, 0);
    assert_eq!(r.y, 549);
    assert_eq!(r.width, 800);
    assert_eq!(r.height, 51);
}

#[test]
fn frame_pass_appends_message_bar_last() {
    let size = size_800x600();
    let m = metrics();
    let cells = vec![
        cell(0, 0, RED, true, false),
        cell(0, 1, RED, true, false),
        cell(0, 2, RED, false, false),
    ];
    let msg = BarMessage { line_count: 2, color: BLUE };
    let update = RenderUpdate {
        grid_cells: cells,
        message: Some(msg),
        visual_bell_intensity_milli: 0,
        background_color: BLUE,
    };
    let rects = build_frame_rects(&m, &size, &update, (0, 0));
    let out = rects.rects();
    assert_eq!(out.len(), 2);
    assert_eq!(out[0].1, RED);
    assert_eq!(out[1].1, BLUE);
    // lines = 37; start 35; y = 16 * 35 = 560.
    assert_eq!(out[1].0.y, 560);
    assert_eq!(out[1].0.height, 40);
}

#[test]
fn frame_pass_without_message() {
    let size = size_800x600();
    let m = metrics();
    let cells = vec![cell(3, 4, BLUE, true, true), cell(3, 5, BLUE, false, false)];
    let update = RenderUpdate {
        grid_cells: cells,
        message: None,
        visual_bell_intensity_milli: 0,
        background_color: BLUE,
    };
    let rects = build_frame_rects(&m, &size, &update, (0, 0));
    // One underline rect and one strikeout rect flushed by the second cell.
    assert_eq!(rects.rects().len(), 2);
}

#[test]
fn rows_never_share_a_run() {
    let size = size_800x600();
    let m = metrics();
    let mut rects = Rects::new(&m, &size);
    // An underline run that continues in column terms but changes row.
    rects.update_lines(&size, &cell(0, 4, RED, true, false), (0, 0));
    rects.update_lines(&size, &cell(1, 5, RED, true, false), (0, 0));
    rects.update_lines(&size, &cell(1, 6, RED, false, false), (0, 0));
    let out = rects.rects();
    assert_eq!(out.len(), 2);
    // First run on row 0: y from cell bottom 16; second on row 1: 16 lower.
    assert_eq!(out[0].0.y, 10);
    assert_eq!(out[1].0.y, 26);
}

#[test]
fn underline_and_strikeout_are_tracked_independently() {
    let size = size_800x600();
    let m = metrics();
    let mut rects = Rects::new(&m, &size);
    rects.update_lines(&size, &cell(0, 0, RED, true, true), (0, 0));
    rects.update_lines(&size, &cell(0, 1, RED, true, false), (0, 0));
    rects.update_lines(&size, &cell(0, 2, RED, false, false), (0, 0));
    let out = rects.rects();
    // The strikeout run flushes at column 1; the underline run at column 2.
    assert_eq!(out.len(), 2);
    assert_eq!(out[0].0.height, 2);
    assert_eq!(out[0].0.width, 8);
    assert_eq!(out[1].0.height, 1);
    assert_eq!(out[1].0.width, 16);
}
