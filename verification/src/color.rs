//! Classification of one pixel's color bytes.
//!
//! A gauge bar is drawn in exactly two colors: a "filled" red and an "empty"
//! gray.  Classification is exact byte equality — no tolerance — and the
//! alpha byte is deliberately ignored, as a tolerance for capture artifacts.

use vstd::prelude::*;

verus! {

/// The "filled" red of a gauge bar: R = 0xF5, G = 0x00, B = 0x00.
pub open spec fn is_red_spec(r: u8, g: u8, b: u8) -> bool {
    r == 0xF5 && g == 0x00 && b == 0x00
}

/// The "empty" gray of a gauge bar: R = 0x5F, G = 0x5E, B = 0x5F.
pub open spec fn is_gray_spec(r: u8, g: u8, b: u8) -> bool {
    r == 0x5F && g == 0x5E && b == 0x5F
}

/// A pixel that belongs to a gauge bar at all: either of the two colors.
pub open spec fn is_red_or_gray_spec(r: u8, g: u8, b: u8) -> bool {
    is_red_spec(r, g, b) || is_gray_spec(r, g, b)
}

/// Does this pixel show the gauge's "filled" red?  Alpha is ignored.
pub fn is_red(r: u8, g: u8, b: u8, _a: u8) -> (res: bool)
    ensures
        res == is_red_spec(r, g, b),
{
    r == 0xF5 && g == 0x00 && b == 0x00
}

/// Does this pixel show the gauge's "empty" gray?  Alpha is ignored.
pub fn is_gray(r: u8, g: u8, b: u8, _a: u8) -> (res: bool)
    ensures
        res == is_gray_spec(r, g, b),
{
    r == 0x5F && g == 0x5E && b == 0x5F
}

/// Does this pixel belong to a gauge bar (either red or gray)?
pub fn is_red_or_gray(r: u8, g: u8, b: u8, a: u8) -> (res: bool)
    ensures
        res == is_red_or_gray_spec(r, g, b),
{
    is_red(r, g, b, a) || is_gray(r, g, b, a)
}

} // verus!
