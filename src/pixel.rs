use vstd::prelude::*;

verus! {

/// The largest packed pixel: every channel at full intensity.
pub const MAX_PIXEL: u32 = 0xFF_FFFF;

/// A channel already scaled to `0..=255` and floored, limited to that range.
pub open spec fn clamp_channel(v: int) -> int {
    if v < 0 {
        0
    } else if v > 255 {
        255
    } else {
        v
    }
}

/// Eight bits per channel, red most significant.
pub open spec fn packed(r: int, g: int, b: int) -> int {
    r * 0x1_0000 + g * 0x100 + b
}

/// Limits a scaled and floored channel value to one byte.
pub fn quantize(scaled: i64) -> (r: u8)
    ensures
        r as int == clamp_channel(scaled as int),
{
    if scaled < 0 {
        0
    } else if scaled > 255 {
        255
    } else {
        scaled as u8
    }
}

/// Packs three channels into one pixel.
pub fn pack_rgb(r: u8, g: u8, b: u8) -> (p: u32)
    ensures
        p as int == packed(r as int, g as int, b as int),
        p <= MAX_PIXEL,
{
    (r as u32) * 0x1_0000 + (g as u32) * 0x100 + (b as u32)
}

/// The pixel for three channels, each already scaled to `0..=255` and floored:
/// every channel is limited to a byte, then the three are packed.
pub fn pixel_of_scaled(r: i64, g: i64, b: i64) -> (p: u32)
    ensures
        p as int == packed(
            clamp_channel(r as int),
            clamp_channel(g as int),
            clamp_channel(b as int),
        ),
        p <= MAX_PIXEL,
{
    pack_rgb(quantize(r), quantize(g), quantize(b))
}

} // verus!
