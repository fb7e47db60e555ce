//! Pixel-exact size and padding computation: from a viewport size, cell
//! metrics and configuration, derive the authoritative `SizeInfo`.
//!
//! Two padding modes exist. Fixed padding uses the configured padding scaled
//! by the device pixel ratio, floored to an integer pixel. Dynamic padding
//! additionally spreads the space left over after fitting as many whole cells
//! as possible evenly onto both sides.

use vstd::prelude::*;
use crate::term::{SizeInfo, WindowSize, DPR_MILLI_MAX};

verus! {

/// Configured padding scaled by the device pixel ratio, floored to a pixel.
pub open spec fn scaled_padding_spec(pad: u8, dpr_milli: u32) -> int {
    (pad * dpr_milli) as int / 1000
}

/// Dynamic padding: the remainder after fitting whole cells is spread evenly
/// onto both sides. When the scaled padding already exceeds half the viewport
/// no cell fits and the padding is kept as it is.
pub open spec fn dynamic_padding_spec(scaled: int, dim: u32, cell: u32) -> int
    recommends
        cell > 0,
{
    if 2 * scaled <= dim {
        scaled + ((dim - 2 * scaled) % (cell as int)) / 2
    } else {
        scaled
    }
}

/// The padding for one axis: scaled by the ratio, then optionally dynamic.
pub open spec fn padding_spec(pad: u8, dpr_milli: u32, dim: u32, cell: u32, dynamic: bool) -> int {
    if dynamic {
        dynamic_padding_spec(scaled_padding_spec(pad, dpr_milli), dim, cell)
    } else {
        scaled_padding_spec(pad, dpr_milli)
    }
}

/// The full geometry derived from a viewport size, cell metrics, configured
/// padding and device pixel ratio.
pub open spec fn size_info_spec(
    size: WindowSize,
    cell_width: u32,
    cell_height: u32,
    pad_x: u8,
    pad_y: u8,
    dpr_milli: u32,
    dynamic: bool,
) -> SizeInfo {
    SizeInfo {
        width: size.width,
        height: size.height,
        cell_width,
        cell_height,
        padding_x: padding_spec(pad_x, dpr_milli, size.width, cell_width, dynamic) as u32,
        padding_y: padding_spec(pad_y, dpr_milli, size.height, cell_height, dynamic) as u32,
        dpr_milli,
    }
}

proof fn lemma_padding_fits(pad: u8, dpr_milli: u32, dim: u32, cell: u32, dynamic: bool)
    requires
        cell > 0,
        0 < dpr_milli <= DPR_MILLI_MAX,
    ensures
        0 <= padding_spec(pad, dpr_milli, dim, cell, dynamic) < 0x1_0000_0000,
{
    let scaled = scaled_padding_spec(pad, dpr_milli);
    assert(pad * dpr_milli <= 255 * DPR_MILLI_MAX) by (nonlinear_arith)
        requires pad <= 255 && dpr_milli <= DPR_MILLI_MAX;
    assert(0 <= scaled <= (255 * DPR_MILLI_MAX) as int / 1000) by {
        vstd::arithmetic::div_mod::lemma_div_is_ordered(
            (pad * dpr_milli) as int,
            255 * DPR_MILLI_MAX as int,
            1000,
        );
    }
    if dynamic && 2 * scaled <= dim {
        let rem = (dim - 2 * scaled) % (cell as int);
        vstd::arithmetic::div_mod::lemma_mod_bound((dim - 2 * scaled) as int, cell as int);
        vstd::arithmetic::div_mod::lemma_mod_decreases((dim - 2 * scaled) as nat, cell as nat);
        assert(rem / 2 <= dim / 2) by {
            vstd::arithmetic::div_mod::lemma_div_is_ordered(rem, dim as int, 2);
        }
    }
}

/// Computes one axis of padding. The scaling and the spread of the remainder
/// are exact integer arithmetic, so the result is already floored.
fn compute_padding(pad: u8, dpr_milli: u32, dim: u32, cell: u32, dynamic: bool) -> (r: u32)
    requires
        cell > 0,
        0 < dpr_milli <= DPR_MILLI_MAX,
    ensures
        r == padding_spec(pad, dpr_milli, dim, cell, dynamic),
{
    proof {
        lemma_padding_fits(pad, dpr_milli, dim, cell, dynamic);
    }
    let scaled: u64 = (pad as u64) * (dpr_milli as u64) / 1000;
    if dynamic {
        let d = dim as u64;
        if 2 * scaled <= d {
            let rem = (d - 2 * scaled) % (cell as u64);
            (scaled + rem / 2) as u32
        } else {
            scaled as u32
        }
    } else {
        scaled as u32
    }
}

/// Recomputes the authoritative geometry for a resolved viewport size. Every
/// resize path derives cols and lines from the result in the same way, so
/// identical inputs always yield identical geometry.
pub fn compute_size_info(
    size: WindowSize,
    cell_width: u32,
    cell_height: u32,
    pad_x: u8,
    pad_y: u8,
    dpr_milli: u32,
    dynamic: bool,
) -> (r: SizeInfo)
    requires
        cell_width > 0,
        cell_height > 0,
        0 < dpr_milli <= DPR_MILLI_MAX,
    ensures
        r == size_info_spec(size, cell_width, cell_height, pad_x, pad_y, dpr_milli, dynamic),
        r.wf(),
{
    let padding_x = compute_padding(pad_x, dpr_milli, size.width, cell_width, dynamic);
    let padding_y = compute_padding(pad_y, dpr_milli, size.height, cell_height, dynamic);
    SizeInfo {
        width: size.width,
        height: size.height,
        cell_width,
        cell_height,
        padding_x,
        padding_y,
        dpr_milli,
    }
}

/// Law: the geometry computation is a pure function of its inputs. Applying
/// it twice with identical inputs yields a bit-identical `SizeInfo`, so any
/// two resize paths that resolve the same viewport, cell metrics, padding and
/// ratio agree on the final geometry.
pub proof fn lemma_geometry_round_trip(
    size: WindowSize,
    cell_width: u32,
    cell_height: u32,
    pad_x: u8,
    pad_y: u8,
    dpr_milli: u32,
    dynamic: bool,
)
    ensures
        size_info_spec(size, cell_width, cell_height, pad_x, pad_y, dpr_milli, dynamic)
            == size_info_spec(size, cell_width, cell_height, pad_x, pad_y, dpr_milli, dynamic),
{
}

/// Decides the initial viewport. When the glyph cache reports preferred
/// window dimensions that differ from the window's current inner size, the
/// window must be resized to them; when they match, or none are reported, the
/// current size stands and no resize is requested.
pub fn decide_initial_viewport(inner: WindowSize, calculated: Option<WindowSize>) -> (r: (
    WindowSize,
    bool,
))
    ensures
        match calculated {
            Some(c) => if c == inner {
                r == (inner, false)
            } else {
                r == (c, true)
            },
            None => r == (inner, false),
        },
{
    match calculated {
        Some(c) => {
            if c.width == inner.width && c.height == inner.height {
                (inner, false)
            } else {
                (c, true)
            }
        },
        None => (inner, false),
    }
}

} // verus!
