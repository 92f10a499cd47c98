use vstd::prelude::*;

verus! {

/// A point on the base sphere, held as the IEEE-754 bit patterns of its
/// `f32` latitude and longitude in radians.
///
/// The latitude lies strictly inside the open range between the poles, the
/// longitude inside `[0, 2π]`; the trigonometry on these values is done by the
/// callers that own the floating-point side.
#[derive(Clone, Copy, Debug, PartialEq, Eq, Structural)]
pub struct SurfacePoint {
    /// Bits of the latitude.
    pub lat: u32,
    /// Bits of the longitude.
    pub lon: u32,
}

} // verus!
