use term_display::geometry::{compute_size_info, decide_initial_viewport};
use term_display::term::{SizeInfo, WindowSize};

#[test]
fn fixed_padding_scales_by_ratio_and_floors() {
    let s = compute_size_info(WindowSize { width: 800, height: 600 }, 8, 16, 2, 3, 2000, false);
    assert_eq!(s.padding_x, 4);
    assert_eq!(s.padding_y, 6);
    assert_eq!(s.width, 800);
    assert_eq!(s.height, 600);
    assert_eq!(s.cell_width, 8);
    assert_eq!(s.cell_height, 16);
    assert_eq!(s.dpr_milli, 2000);
    // cols = (800 - 8) / 8 = 99; lines = (600 - 12) / 16 = 36.
    assert_eq!(s.cols(), 99);
    assert_eq!(s.lines(), 36);
}

#[test]
fn fractional_scaled_padding_floors_to_a_pixel() {
    // 3 * 1500 / 1000 = 4.5, floored to 4.
    let s = compute_size_info(WindowSize { width: 100, height: 100 }, 5, 5, 3, 3, 1500, false);
    assert_eq!(s.padding_x, 4);
    assert_eq!(s.padding_y, 4);
}

#[test]
fn dynamic_padding_spreads_the_remainder_evenly() {
    let s = compute_size_info(WindowSize { width: 805, height: 600 }, 10, 16, 0, 0, 1000, true);
    // 805 % 10 = 5, spread as 2 on each side (floored).
    assert_eq!(s.padding_x, 2);
    // 600 % 16 = 8, spread as 4.
    assert_eq!(s.padding_y, 4);
    assert_eq!(s.cols(), 80);
    assert_eq!(s.lines(), 37);
}

#[test]
fn geometry_is_deterministic_for_identical_inputs() {
    let a = compute_size_info(WindowSize { width: 1024, height: 768 }, 9, 18, 2, 2, 1250, true);
    let b = compute_size_info(WindowSize { width: 1024, height: 768 }, 9, 18, 2, 2, 1250, true);
    assert_eq!(a, b);
}

#[test]
fn oversized_padding_leaves_no_cells() {
    let s = SizeInfo {
        width: 10,
        height: 10,
        cell_width: 8,
        cell_height: 16,
        padding_x: 20,
        padding_y: 20,
        dpr_milli: 1000,
    };
    assert_eq!(s.cols(), 0);
    assert_eq!(s.lines(), 0);
}

#[test]
fn initial_viewport_keeps_matching_size() {
    let inner = WindowSize { width: 640, height: 480 };
    assert_eq!(decide_initial_viewport(inner, Some(inner)), (inner, false));
}

#[test]
fn initial_viewport_resizes_to_calculated_dimensions() {
    let inner = WindowSize { width: 640, height: 480 };
    let calc = WindowSize { width: 656, height: 496 };
    assert_eq!(decide_initial_viewport(inner, Some(calc)), (calc, true));
}

#[test]
fn initial_viewport_without_calculated_dimensions() {
    let inner = WindowSize { width: 640, height: 480 };
    assert_eq!(decide_initial_viewport(inner, None), (inner, false));
}
