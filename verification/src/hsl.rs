//! Integer RGB to HSL conversion, all three channels scaled to [0, 255].
//!
//! This is the standard max/min-based formula — lightness is the mean of the
//! largest and smallest channel, saturation branches on whether the color is
//! light or dark, hue branches on which channel is maximal — carried out over
//! exact rationals and rounded to the nearest byte.

use vstd::prelude::*;
use crate::fixed::lemma_div_le;

verus! {

/// The largest of the three RGB channels.
pub open spec fn spec_rgb_max(r: u8, g: u8, b: u8) -> int {
    if r >= g && r >= b {
        r as int
    } else if g >= b {
        g as int
    } else {
        b as int
    }
}

/// The smallest of the three RGB channels.
pub open spec fn spec_rgb_min(r: u8, g: u8, b: u8) -> int {
    if r <= g && r <= b {
        r as int
    } else if g <= b {
        g as int
    } else {
        b as int
    }
}

/// Lightness: the mean of the extremes, rounded to the nearest byte.
pub open spec fn spec_hsl_l(r: u8, g: u8, b: u8) -> int {
    (spec_rgb_max(r, g, b) + spec_rgb_min(r, g, b) + 1) / 2
}

/// Saturation: the spread over the head room, 0 for gray, rounded.
pub open spec fn spec_hsl_s(r: u8, g: u8, b: u8) -> int {
    let mx = spec_rgb_max(r, g, b);
    let mn = spec_rgb_min(r, g, b);
    if mx == mn {
        0int
    } else {
        let d = mx - mn;
        let denom = if mx + mn > 255 { 510 - mx - mn } else { mx + mn };
        (510 * d + denom) / (2 * denom)
    }
}

/// Hue: a sixth of a turn per sector, anchored at the maximal channel,
/// mapped to [0, 255] and rounded. 0 for gray.
pub open spec fn spec_hsl_h(r: u8, g: u8, b: u8) -> int {
    let mx = spec_rgb_max(r, g, b);
    let mn = spec_rgb_min(r, g, b);
    if mx == mn {
        0int
    } else {
        let d = mx - mn;
        let num = if mx == r {
            255 * (g - b) + (if g < b { 6 * 255 * d } else { 0 })
        } else if mx == g {
            255 * (b - r) + 2 * 255 * d
        } else {
            255 * (r - g) + 4 * 255 * d
        };
        (2 * num + 6 * d) / (12 * d)
    }
}

/// Converts one RGB byte triple to (hue, saturation, lightness) bytes.
pub fn hsl_from_rgb(r: u8, g: u8, b: u8) -> (hsl: (u8, u8, u8))
    ensures
        hsl.0 == spec_hsl_h(r, g, b),
        hsl.1 == spec_hsl_s(r, g, b),
        hsl.2 == spec_hsl_l(r, g, b),
{
    let mx: u32 = if r >= g && r >= b {
        r as u32
    } else if g >= b {
        g as u32
    } else {
        b as u32
    };
    let mn: u32 = if r <= g && r <= b {
        r as u32
    } else if g <= b {
        g as u32
    } else {
        b as u32
    };
    let l: u8 = ((mx + mn + 1) / 2) as u8;
    if mx == mn {
        return (0, 0, l);
    }
    let d: u32 = mx - mn;
    proof {
        assert(mx as int == spec_rgb_max(r, g, b));
        assert(mn as int == spec_rgb_min(r, g, b));
        assert(mx <= 255 && mn < mx && d <= 255);
        assert(r <= mx && g <= mx && b <= mx);
        assert(mn <= r && mn <= g && mn <= b);
    }

    let denom: u32 = if mx + mn > 255 { 510 - mx - mn } else { mx + mn };
    proof {
        assert(510 * (d as int) + (denom as int) < 256 * (2 * denom as int));
        lemma_div_le(510 * (d as int) + denom as int, 2 * denom as int, 255);
    }
    let s: u8 = ((510 * d + denom) / (2 * denom)) as u8;

    let num: i64 = if mx == r as u32 {
        255 * (g as i64 - b as i64) + (if g < b { 6 * 255 * d as i64 } else { 0 })
    } else if mx == g as u32 {
        255 * (b as i64 - r as i64) + 2 * 255 * d as i64
    } else {
        255 * (r as i64 - g as i64) + 4 * 255 * d as i64
    };
    proof {
        assert(num >= 0);
        assert(num <= 1530 * d);
        lemma_div_le(2 * (num as int) + 6 * d as int, 12 * d as int, 255);
    }
    let h: u8 = ((2 * num + 6 * d as i64) / (12 * d as i64)) as u8;
    (h, s, l)
}

} // verus!
