use vstd::prelude::*;

pub mod engrave;
pub mod matrix;
pub mod neighboors;
pub mod pixels;

pub use engrave::{local_differences, LocalDiff, Pixel};
pub use matrix::Matrix;
pub use neighboors::{Dist, Neighboors, ParseNeighboorsError};
pub use pixels::{pixels_from_bytes, pixels_to_bytes};

verus! {

/// The value of one output channel: `v` reduced modulo 256.
pub fn wrap_channel(v: i64) -> (r: u8)
    ensures
        r as int == v as int % 256,
{
    let low: i64 = v & 255;
    assert(0 <= low < 256 && low as int == v as int % 256) by (bit_vector)
        requires low == v & 255;
    low as u8
}

} // verus!
