//! Pixel-count arithmetic for fixed-size sample buffers.

use vstd::prelude::*;

verus! {

/// Number of pixels in a `w` x `h` region, as a buffer length.
///
/// The product is taken in `u32`, so it must fit there.
pub fn get_arr_size(w: &u32, h: &u32) -> (size: usize)
    requires
        (*w as int) * (*h as int) <= u32::MAX,
    ensures
        size as int == (*w as int) * (*h as int),
{
    let size: u32 = *w * *h;
    size as usize
}

} // verus!
