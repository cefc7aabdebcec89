//! The display's 16-bit colour type, from the embedded-graphics crate.
use embedded_graphics::pixelcolor::Rgb565;
use vstd::prelude::*;

verus! {

#[verifier::external_type_specification]
#[verifier::external_body]
pub struct ExRgb565(Rgb565);

/// The colour that `Rgb565::new` builds from red, green and blue channel values.
pub uninterp spec fn rgb565_of(r: u8, g: u8, b: u8) -> Rgb565;

/// Calls `embedded_graphics::pixelcolor::Rgb565::new`. Trusted: the result is
/// named `rgb565_of(r, g, b)`, and, as the crate's source masks each channel to
/// its width (5, 6 and 5 bits) before packing, it is also the colour of the
/// masked channel values.
#[verifier::external_body]
pub(crate) fn rgb565_new(r: u8, g: u8, b: u8) -> (c: Rgb565)
    ensures
        c == rgb565_of(r, g, b),
        c == rgb565_of(r & 0x1f, g & 0x3f, b & 0x1f),
{
    Rgb565::new(r, g, b)
}

/// The colour of a packed 5-6-5 pixel value: red in the top five bits, green in
/// the middle six, blue in the low five.
pub fn rgb565_from_raw(raw: u16) -> (c: Rgb565)
    ensures
        c == rgb565_of((raw / 2048) as u8, (raw / 32 % 64) as u8, (raw % 32) as u8),
{
    let r = ((raw >> 11) & 0x1f) as u8;
    let g = ((raw >> 5) & 0x3f) as u8;
    let b = (raw & 0x1f) as u8;
    assert(((raw >> 11) & 0x1f) == raw / 2048 && ((raw >> 5) & 0x3f) == raw / 32 % 64 && (raw
        & 0x1f) == raw % 32) by (bit_vector);
    rgb565_new(r, g, b)
}

} // verus!
