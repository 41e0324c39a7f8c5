//! Hue to RGB conversion at full saturation and full brightness.
//!
//! The 0..=255 hue wheel is split into six 43-unit sectors (the last sector
//! absorbs the remainder up to 255). Within a sector one channel rises or
//! falls linearly while the other two are pinned to 0 or 255, rotating
//! Red -> Yellow -> Green -> Cyan -> Blue -> Magenta -> Red.

use vstd::prelude::*;

verus! {

/// The RGB triple for `hue` at saturation 1 and value 1.
pub open spec fn spec_hue_to_rgb(hue: u8) -> (u8, u8, u8) {
    let h = hue as int;
    let sector = h / 43;
    let ramp = (h % 43) * 6;
    if sector == 0 {
        (255u8, ramp as u8, 0u8)
    } else if sector == 1 {
        ((255 - ramp) as u8, 255u8, 0u8)
    } else if sector == 2 {
        (0u8, 255u8, ramp as u8)
    } else if sector == 3 {
        (0u8, (255 - ramp) as u8, 255u8)
    } else if sector == 4 {
        (ramp as u8, 0u8, 255u8)
    } else {
        (255u8, 0u8, (255 - ramp) as u8)
    }
}

/// Converts a hue to an RGB triple at full saturation and brightness.
pub fn hsv_to_rgb(hue: u8) -> (rgb: (u8, u8, u8))
    ensures
        rgb == spec_hue_to_rgb(hue),
{
    let h = hue as u16;
    let sector = h / 43;
    let ramp = (h % 43) * 6;
    match sector {
        0 => (255, ramp as u8, 0),
        1 => (255 - ramp as u8, 255, 0),
        2 => (0, 255, ramp as u8),
        3 => (0, 255 - ramp as u8, 255),
        4 => (ramp as u8, 0, 255),
        _ => (255, 0, 255 - ramp as u8),
    }
}

} // verus!
