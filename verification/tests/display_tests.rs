use term_display::display::{CoordPhase, Display, Error, Resize, ResizeEffects};
use term_display::term::{SizeInfo, WindowSize};
use term_display::ui_config::{Delta, FontSize, WindowConfig};

fn size(width: u32, height: u32) -> SizeInfo {
    SizeInfo {
        width,
        height,
        cell_width: 8,
        cell_height: 16,
        padding_x: 0,
        padding_y: 0,
        dpr_milli: 1000,
    }
}

fn config() -> WindowConfig {
    WindowConfig { padding: Delta { x: 0, y: 0 }, dynamic_padding: false }
}

fn font(half_points: u32) -> FontSize {
    FontSize { half_points }
}

#[test]
fn signals_coalesce_to_the_last_of_each_kind() {
    let mut d = Display::new(size(800, 600), font(22));
    d.push_resize(Resize::Size(WindowSize { width: 800, height: 600 }));
    d.push_resize(Resize::DPR(2000));
    d.push_resize(Resize::Size(WindowSize { width: 810, height: 600 }));
    let dec = d.begin_resize();
    assert!(!dec.noop);
    assert!(dec.font_changed);
    assert_eq!(dec.resolved_size, Some(WindowSize { width: 810, height: 600 }));
    assert_eq!(dec.new_dpr_milli, 2000);
    assert_eq!(d.phase, CoordPhase::Reconciling);

    // The glyph cache is rebuilt exactly once, with the new cell metrics.
    let effects = d.finish_resize(&dec, Some((16, 32)), &config());
    assert!(effects.rebuilt_glyph_cache);
    assert_eq!(effects.renderer_resize, Some((WindowSize { width: 810, height: 600 }, 0, 0)));
    assert_eq!(d.size_info.width, 810);
    assert_eq!(d.size_info.height, 600);
    assert_eq!(d.size_info.cell_width, 16);
    assert_eq!(d.size_info.cell_height, 32);
    assert_eq!(d.size_info.dpr_milli, 2000);
    assert_eq!(d.phase, CoordPhase::Idle);
}

#[test]
fn message_bar_growth_shrinks_the_pty_height_only() {
    // An 80x24 grid at cell height 16.
    let mut d = Display::new(size(640, 384), font(22));
    assert_eq!(d.size_info.cols(), 80);
    assert_eq!(d.size_info.lines(), 24);
    d.push_resize(Resize::MessageBar(2));
    let dec = d.begin_resize();
    assert!(!dec.noop);
    assert!(!dec.font_changed);
    assert_eq!(dec.resolved_size, Some(WindowSize { width: 640, height: 384 }));
    let effects = d.finish_resize(&dec, None, &config());
    assert!(!effects.rebuilt_glyph_cache);
    let pty = effects.pty_resize.expect("pty must be notified");
    // The pty-visible height shrinks by 2 * 16 = 32 pixels: 22 rows.
    assert_eq!(pty.height, 352);
    assert_eq!(pty.lines(), 22);
    assert_eq!(pty.cols(), 80);
    // The GPU geometry is unchanged in width.
    assert_eq!(effects.renderer_resize, Some((WindowSize { width: 640, height: 384 }, 0, 0)));
    assert_eq!(d.size_info.width, 640);
}

#[test]
fn quiet_tick_never_reconciles_and_never_resizes() {
    let mut d = Display::new(size(800, 600), font(22));
    let dec = d.begin_resize();
    assert!(dec.noop);
    assert_eq!(d.phase, CoordPhase::Idle);
    let effects = d.finish_resize(&dec, None, &config());
    assert_eq!(
        effects,
        ResizeEffects {
            rebuilt_glyph_cache: false,
            pty_resize: None,
            renderer_resize: None,
            broadcast: None,
        },
    );
    assert_eq!(d.size_info, size(800, 600));
}

#[test]
fn second_application_with_no_new_signals_is_a_no_op() {
    let mut d = Display::new(size(800, 600), font(22));
    d.push_resize(Resize::DPR(2000));
    d.push_resize(Resize::FontSize(font(30)));
    let dec = d.begin_resize();
    d.finish_resize(&dec, Some((16, 32)), &config());
    let after_first = (d.size_info, d.font_size);

    let dec2 = d.begin_resize();
    assert!(dec2.noop);
    let effects2 = d.finish_resize(&dec2, None, &config());
    assert_eq!(effects2.renderer_resize, None);
    assert_eq!((d.size_info, d.font_size), after_first);
}

#[test]
fn explicit_size_equal_to_current_is_skipped() {
    let mut d = Display::new(size(800, 600), font(22));
    d.push_resize(Resize::Size(WindowSize { width: 800, height: 600 }));
    let dec = d.begin_resize();
    assert!(dec.noop);
}

#[test]
fn dpi_change_without_size_synthesizes_a_rescaled_size() {
    let mut d = Display::new(size(800, 600), font(22));
    d.push_resize(Resize::DPR(2000));
    let dec = d.begin_resize();
    assert!(!dec.noop);
    assert!(dec.font_changed);
    assert_eq!(dec.resolved_size, Some(WindowSize { width: 1600, height: 1200 }));
}

#[test]
fn font_size_change_triggers_a_full_pass() {
    let mut d = Display::new(size(800, 600), font(22));
    d.push_resize(Resize::FontSize(font(24)));
    let dec = d.begin_resize();
    assert!(!dec.noop);
    assert!(dec.font_changed);
    assert_eq!(dec.new_font_size, font(24));
    // Ratio unchanged: the synthesized size is the current one.
    assert_eq!(dec.resolved_size, Some(WindowSize { width: 800, height: 600 }));
    let effects = d.finish_resize(&dec, Some((9, 18)), &config());
    assert!(effects.rebuilt_glyph_cache);
    assert_eq!(d.font_size, font(24));
    assert_eq!(d.size_info.cell_width, 9);
}

#[test]
fn pty_is_not_notified_when_the_grid_is_unchanged() {
    let mut d = Display::new(size(800, 600), font(22));
    // Grow by less than one cell: cols and lines stay the same.
    d.push_resize(Resize::Size(WindowSize { width: 804, height: 600 }));
    let dec = d.begin_resize();
    let effects = d.finish_resize(&dec, None, &config());
    assert_eq!(effects.pty_resize, None);
    assert!(effects.renderer_resize.is_some());
}

#[test]
fn malformed_ratio_is_clamped_on_entry() {
    let mut d = Display::new(size(800, 600), font(22));
    d.push_resize(Resize::DPR(0));
    assert_eq!(d.pending[0], Resize::DPR(1));
    d.push_resize(Resize::DPR(u32::MAX));
    assert_eq!(d.pending[1], Resize::DPR(10_000_000));
}

#[test]
fn receiving_a_signal_starts_collecting() {
    let mut d = Display::new(size(800, 600), font(22));
    assert_eq!(d.phase, CoordPhase::Idle);
    d.push_resize(Resize::MessageBar(1));
    assert_eq!(d.phase, CoordPhase::Collecting);
}

#[test]
fn glyph_cache_update_changes_only_the_cell_dimensions() {
    let mut d = Display::new(size(800, 600), font(22));
    d.update_glyph_cache(10, 20);
    assert_eq!(d.size_info.cell_width, 10);
    assert_eq!(d.size_info.cell_height, 20);
    assert_eq!(d.size_info.width, 800);
    assert_eq!(d.size_info.dpr_milli, 1000);
    assert_eq!(d.font_size, font(22));
}

#[test]
fn error_is_tagged_with_the_failing_subsystem() {
    let e = Error::Window(String::from("no display"));
    assert_eq!(e.subsystem(), "window");
    assert_eq!(e.message(), "no display");
    let e = Error::Font(String::from("missing glyph table"));
    assert_eq!(e.subsystem(), "font");
    assert_eq!(e.message(), "missing glyph table");
    let e = Error::Render(String::from("shader failed"));
    assert_eq!(e.subsystem(), "renderer");
    assert_eq!(e.message(), "shader failed");
}
