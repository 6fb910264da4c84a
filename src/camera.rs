//! The part of the camera's projection update that is decided on integers.
use vstd::prelude::*;

verus! {

/// The viewport's aspect ratio as the fraction `(numerator, denominator)`. A viewport
/// with a zero side, such as a minimized window, counts as square, so the ratio never
/// divides by zero.
pub fn aspect_fraction(width: u32, height: u32) -> (r: (u32, u32))
    ensures
        r == (if width == 0 || height == 0 { (1u32, 1u32) } else { (width, height) }),
        r.1 > 0,
{
    if width == 0 || height == 0 {
        (1, 1)
    } else {
        (width, height)
    }
}

} // verus!
