//! Grey pixels: one 8-bit level repeated in the red, green and blue channels
//! of a packed 24-bit colour.

use vstd::prelude::*;

verus! {

/// The packed colour whose three channels all carry `level`.
pub open spec fn gray(level: int) -> int {
    level * 0x1_0000 + level * 0x100 + level
}

/// The 8-bit level that is left of a height: the height modulo 256. Heights
/// outside `0..=255` wrap around; they are not clamped.
pub open spec fn narrowed(height: int) -> int {
    height % 256
}

/// The colour in which a height is shown.
pub open spec fn height_color(height: int) -> int {
    gray(narrowed(height))
}

/// Narrowing wraps and does not clamp: heights that differ by a multiple of
/// 256 are shown alike, a height from 0 to 255 is shown at its own level, and
/// every colour fits in 24 bits.
pub proof fn lemma_height_color_wraps(height: int, turns: int)
    ensures
        height_color(height + 256 * turns) == height_color(height),
        0 <= narrowed(height) < 256,
        0 <= height < 256 ==> height_color(height) == gray(height),
        0 <= height_color(height) <= 0xFF_FFFF,
{
    vstd::arithmetic::div_mod::lemma_mod_multiples_vanish(turns, height, 256);
    assert(256 * turns + height == height + 256 * turns);
}

/// Packs one 8-bit level into a grey pixel, `0x00LLLLLL`.
pub fn grayscale(color: u8) -> (pixel: u32)
    ensures
        pixel == ((color as u32) << 16) | ((color as u32) << 8) | (color as u32),
        pixel == gray(color as int),
{
    let pixel: u32 = ((color as u32) << 16) | ((color as u32) << 8) | (color as u32);
    assert(((color as u32) << 16) | ((color as u32) << 8) | (color as u32) == (color as u32)
        * 0x1_0000 + (color as u32) * 0x100 + (color as u32)) by (bit_vector);
    pixel
}

/// Shows a height as a grey pixel. The height is narrowed to 8 bits by
/// wrapping, so 256 is as dark as 0 and -1 as bright as 255.
pub fn height_to_color(height: i64) -> (pixel: u32)
    ensures
        pixel == height_color(height as int),
{
    let level: u8 = #[verifier::truncate] (height as u8);
    assert(level == height as int % 256) by (bit_vector)
        requires
            level == height as u8,
    ;
    grayscale(level)
}

} // verus!
