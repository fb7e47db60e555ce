//! Configuration read by the geometry core: font sizes, window padding, and
//! the selection of an alternative font for small sizes.
//!
//! Font sizes are kept in half points, a fixed-point unit, so that
//! comparisons and the minimum-size floor are exact.

use vstd::prelude::*;

verus! {

/// A font size in half points (a value of 21 is 10.5 points).
#[derive(Clone, Copy, Debug, PartialEq, Eq, Structural)]
pub struct FontSize {
    pub half_points: u32,
}

/// A delta for a point in a 2 dimensional plane.
#[derive(Clone, Copy, Debug, PartialEq, Eq, Structural)]
pub struct Delta<T> {
    /// Horizontal change.
    pub x: T,
    /// Vertical change.
    pub y: T,
}

/// Window configuration that geometry computation reads: the configured
/// padding in logical pixels, and whether leftover space is spread into the
/// padding dynamically.
#[derive(Clone, Copy, Debug, PartialEq, Eq, Structural)]
pub struct WindowConfig {
    pub padding: Delta<u8>,
    pub dynamic_padding: bool,
}

/// Font configuration; only the size matters to the geometry core.
#[derive(Clone, Copy, Debug, PartialEq, Eq, Structural)]
pub struct Font {
    pub size: FontSize,
}

/// An upper bound on font sizes, in points.
#[derive(Clone, Copy, Debug, PartialEq, Eq, Structural)]
pub struct SmallFontSize {
    pub size: FontSize,
}

/// An alternative font used while the requested size stays at or under an
/// upper bound.
#[derive(Clone, Copy, Debug, PartialEq, Eq, Structural)]
pub struct SmallFontConfig {
    pub font: Font,
    /// Font size bound in points.
    pub upper_bound: Option<SmallFontSize>,
}

impl SmallFontConfig {
    /// The alternative font, when the requested size lies at or under the
    /// configured bound; without a bound nothing is returned.
    pub fn check_bound(&self, size: FontSize) -> (r: Option<&Font>)
        ensures
            match self.upper_bound {
                Some(ub) => if size.half_points <= ub.size.half_points {
                    r == Some(&self.font)
                } else {
                    r.is_none()
                },
                None => r.is_none(),
            },
    {
        match &self.upper_bound {
            Some(upper_bound) => {
                if size.half_points <= upper_bound.size.half_points {
                    Some(&self.font)
                } else {
                    None
                }
            },
            None => None,
        }
    }
}

/// Mouse configuration read by event handling.
#[derive(Clone, Copy, Debug, PartialEq, Eq, Structural)]
pub struct MouseConfig {
    /// Hide the mouse cursor while typing.
    pub hide_when_typing: bool,
}

/// Debug options read by event handling.
#[derive(Clone, Copy, Debug, PartialEq, Eq, Structural)]
pub struct DebugConfig {
    /// Dump the grid state when the window is closed.
    pub ref_test: bool,
    /// Log every incoming event.
    pub print_events: bool,
}

/// The configuration slice that the display and event core reads.
#[derive(Clone, Copy, Debug, PartialEq, Eq, Structural)]
pub struct UIConfig {
    /// Font configuration.
    pub font: Font,
    /// Alternative font for small sizes.
    pub small_font: Option<SmallFontConfig>,
    /// Window configuration.
    pub window: WindowConfig,
    pub mouse: MouseConfig,
    /// Debug options.
    pub debug: DebugConfig,
    /// Send escape sequences using the alt key.
    pub alt_send_esc: bool,
    /// Live config reload.
    pub live_config_reload: bool,
    /// Background opacity in thousandths (1000 is fully opaque).
    pub background_opacity_milli: u16,
}

/// The configuration used when nothing else is given.
pub open spec fn default_ui_config() -> UIConfig {
    UIConfig {
        font: Font { size: FontSize { half_points: 22 } },
        small_font: None,
        window: WindowConfig { padding: Delta { x: 0u8, y: 0u8 }, dynamic_padding: false },
        mouse: MouseConfig { hide_when_typing: false },
        debug: DebugConfig { ref_test: false, print_events: false },
        alt_send_esc: true,
        live_config_reload: true,
        background_opacity_milli: 1000,
    }
}

impl Default for UIConfig {
    fn default() -> (r: Self)
        ensures
            r == default_ui_config(),
    {
        UIConfig {
            font: Font { size: FontSize { half_points: 22 } },
            small_font: None,
            window: WindowConfig { padding: Delta { x: 0u8, y: 0u8 }, dynamic_padding: false },
            mouse: MouseConfig { hide_when_typing: false },
            debug: DebugConfig { ref_test: false, print_events: false },
            alt_send_esc: true,
            live_config_reload: true,
            background_opacity_milli: 1000,
        }
    }
}

impl UIConfig {
    /// Background opacity in thousandths.
    pub fn background_opacity(&self) -> (r: u16)
        ensures
            r == self.background_opacity_milli,
    {
        self.background_opacity_milli
    }

    /// The font selected for a requested size: the alternative small font
    /// while the size stays at or under its bound, the main font otherwise.
    pub fn font(&self, size: &FontSize) -> (r: &Font)
        ensures
            match self.small_font {
                None => r == &self.font,
                Some(sfc) => match sfc.upper_bound {
                    Some(ub) => if size.half_points <= ub.size.half_points {
                        *r == sfc.font
                    } else {
                        r == &self.font
                    },
                    None => r == &self.font,
                },
            },
    {
        match &self.small_font {
            None => &self.font,
            Some(small_font_config) => match small_font_config.check_bound(*size) {
                None => &self.font,
                Some(small_font) => small_font,
            },
        }
    }

    /// Return the basic font to use.
    pub fn basic_font(&self) -> (r: &Font)
        ensures
            r == &self.font,
    {
        &self.font
    }
}

} // verus!
