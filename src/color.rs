//! Colours before and after clamping to the display range.
use vstd::prelude::*;

verus! {

/// The largest value a display channel can hold.
pub const MAX_CHANNEL: i64 = 255;

/// A colour whose channels have been truncated to integers but not yet
/// clamped: any value is legal here.
#[derive(Clone, Copy, Debug, PartialEq, Eq, Structural)]
pub struct Color {
    pub r: i64,
    pub g: i64,
    pub b: i64,
}

/// A colour in display range, one byte per channel.
#[derive(Clone, Copy, Debug, PartialEq, Eq, Structural)]
pub struct Rgb {
    pub r: u8,
    pub g: u8,
    pub b: u8,
}

/// A single channel limited to `[0, 255]`: above truncates to 255, below to
/// 0, otherwise unchanged.
pub open spec fn clamp_value(v: int) -> int {
    if v > 255 {
        255
    } else if v < 0 {
        0
    } else {
        v
    }
}

pub open spec fn channel_in_range(v: int) -> bool {
    0 <= v <= 255
}

impl Color {
    /// Every channel lies in `[0, 255]`.
    pub open spec fn in_range(self) -> bool {
        channel_in_range(self.r as int) && channel_in_range(self.g as int) && channel_in_range(
            self.b as int,
        )
    }

    /// The colour with each channel clamped independently.
    pub open spec fn clamped(self) -> Color {
        Color {
            r: clamp_value(self.r as int) as i64,
            g: clamp_value(self.g as int) as i64,
            b: clamp_value(self.b as int) as i64,
        }
    }

    /// The display colour of an in-range colour.
    pub open spec fn to_rgb_spec(self) -> Rgb {
        Rgb { r: self.r as u8, g: self.g as u8, b: self.b as u8 }
    }

    /// Converts an in-range colour to bytes, channel for channel.
    pub fn to_rgb(&self) -> (r: Rgb)
        requires
            self.in_range(),
        ensures
            r == self.to_rgb_spec(),
            r.r as int == self.r,
            r.g as int == self.g,
            r.b as int == self.b,
    {
        Rgb { r: self.r as u8, g: self.g as u8, b: self.b as u8 }
    }
}

impl Rgb {
    /// Black, the colour shown before any ray has hit.
    pub fn black() -> (r: Rgb)
        ensures
            r == black_spec(),
    {
        Rgb { r: 0, g: 0, b: 0 }
    }
}

pub open spec fn black_spec() -> Rgb {
    Rgb { r: 0, g: 0, b: 0 }
}

/// One channel limited to `[0, 255]`.
pub fn clamp_channel(v: i64) -> (r: i64)
    ensures
        r == clamp_value(v as int),
        channel_in_range(r as int),
{
    if v > MAX_CHANNEL {
        MAX_CHANNEL
    } else if v < 0 {
        0
    } else {
        v
    }
}

/// Clamps each channel of `col` to `[0, 255]` in place.
pub fn clamp(col: &mut Color)
    ensures
        *final(col) == old(col).clamped(),
        final(col).in_range(),
        old(col).in_range() ==> *final(col) == *old(col),
{
    col.r = clamp_channel(col.r);
    col.g = clamp_channel(col.g);
    col.b = clamp_channel(col.b);
}

/// Clamping leaves a colour that is already in display range unchanged, and
/// clamping twice is the same as clamping once.
pub proof fn clamp_keeps_in_range(c: Color)
    ensures
        c.clamped().in_range(),
        c.in_range() ==> c.clamped() == c,
        c.clamped().clamped() == c.clamped(),
{
}

} // verus!
