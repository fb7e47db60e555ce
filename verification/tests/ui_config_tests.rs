use term_display::ui_config::{
    Delta, Font, FontSize, SmallFontConfig, SmallFontSize, UIConfig,
};

fn fs(half_points: u32) -> FontSize {
    FontSize { half_points }
}

#[test]
fn small_font_applies_at_or_under_its_bound() {
    let small = SmallFontConfig {
        font: Font { size: fs(16) },
        upper_bound: Some(SmallFontSize { size: fs(20) }),
    };
    assert_eq!(small.check_bound(fs(18)), Some(&Font { size: fs(16) }));
    assert_eq!(small.check_bound(fs(20)), Some(&Font { size: fs(16) }));
    assert_eq!(small.check_bound(fs(21)), None);
}

#[test]
fn small_font_without_a_bound_never_applies() {
    let small = SmallFontConfig { font: Font { size: fs(16) }, upper_bound: None };
    assert_eq!(small.check_bound(fs(1)), None);
}

#[test]
fn font_selection_prefers_the_small_font_under_the_bound() {
    let mut cfg = UIConfig::default();
    cfg.font = Font { size: fs(22) };
    cfg.small_font = Some(SmallFontConfig {
        font: Font { size: fs(14) },
        upper_bound: Some(SmallFontSize { size: fs(18) }),
    });
    assert_eq!(*cfg.font(&fs(16)), Font { size: fs(14) });
    assert_eq!(*cfg.font(&fs(19)), Font { size: fs(22) });
    assert_eq!(*cfg.basic_font(), Font { size: fs(22) });
}

#[test]
fn font_selection_without_a_small_font() {
    let cfg = UIConfig::default();
    assert_eq!(*cfg.font(&fs(1)), cfg.font);
}

#[test]
fn default_config_values() {
    let cfg = UIConfig::default();
    assert!(cfg.alt_send_esc);
    assert!(cfg.live_config_reload);
    assert!(cfg.small_font.is_none());
    assert!(!cfg.window.dynamic_padding);
    assert_eq!(cfg.window.padding, Delta { x: 0, y: 0 });
    assert!(!cfg.mouse.hide_when_typing);
    assert!(!cfg.debug.ref_test);
    assert!(!cfg.debug.print_events);
    assert_eq!(cfg.background_opacity(), 1000);
}
