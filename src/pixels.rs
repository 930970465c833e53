use vstd::prelude::*;

use crate::engrave::Pixel;

verus! {

/// Groups packed RGB bytes three by three into pixels; bytes at the end that
/// do not make a whole pixel are left out.
pub fn pixels_from_bytes(bytes: &[u8]) -> (r: Vec<Pixel>)
    ensures
        r@.len() == bytes@.len() / 3,
        forall|i: int| 0 <= i < r@.len() ==> #[trigger] r@[i] == (bytes@[3 * i], bytes@[3 * i + 1], bytes@[3 * i + 2]),
{
    let len: usize = bytes.len();
    let n: usize = len / 3;
    let mut r: Vec<Pixel> = Vec::new();
    let mut i: usize = 0;
    while i < n
        invariant
            len == bytes@.len(),
            n == len / 3,
            i <= n,
            r@.len() == i,
            forall|j: int| 0 <= j < i ==> #[trigger] r@[j] == (bytes@[3 * j], bytes@[3 * j + 1], bytes@[3 * j + 2]),
        decreases n - i,
    {
        r.push((bytes[3 * i], bytes[3 * i + 1], bytes[3 * i + 2]));
        i = i + 1;
    }
    r
}

/// Packs pixels into RGB bytes, three per pixel.
pub fn pixels_to_bytes(pixels: &[Pixel]) -> (r: Vec<u8>)
    requires
        3 * pixels@.len() <= usize::MAX,
    ensures
        r@.len() == 3 * pixels@.len(),
        forall|i: int| 0 <= i < pixels@.len() ==> (#[trigger] pixels@[i]) == (r@[3 * i], r@[3 * i + 1], r@[3 * i + 2]),
{
    let mut r: Vec<u8> = Vec::new();
    let mut i: usize = 0;
    while i < pixels.len()
        invariant
            3 * pixels@.len() <= usize::MAX,
            i <= pixels@.len(),
            r@.len() == 3 * i,
            forall|j: int| 0 <= j < i ==> (#[trigger] pixels@[j]) == (r@[3 * j], r@[3 * j + 1], r@[3 * j + 2]),
        decreases pixels@.len() - i,
    {
        let p: Pixel = pixels[i];
        r.push(p.0);
        r.push(p.1);
        r.push(p.2);
        i = i + 1;
    }
    r
}

} // verus!
