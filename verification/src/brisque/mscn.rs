//! Border extension used by the 7×7 Gaussian filter of the MSCN computation.
use vstd::prelude::*;

verus! {

/// Reflect-101 image of index `i` in a dimension of `size` cells, before
/// the final clamp at 0: mirror without repeating the edge cell.
pub open spec fn reflect_101(i: int, size: int) -> int {
    if i < 0 {
        -i
    } else if i >= size {
        2 * size - i - 2
    } else {
        i
    }
}

/// Reflect-101 boundary extension: mirror without repeating the edge pixel.
/// Index -1 → 1, -2 → 2 … index N → N-2, N+1 → N-3 …; a negative result
/// is clamped to 0.
pub fn reflect(i: i32, size: i32) -> (r: usize)
    requires
        i > i32::MIN,
        i >= size ==> i32::MIN <= 2 * size <= i32::MAX,
        i >= size ==> 2 * size - i - 2 >= i32::MIN,
    ensures
        r == (if reflect_101(i as int, size as int) < 0 {
            0
        } else {
            reflect_101(i as int, size as int)
        }),
        0 <= i < size ==> r == i,
        -size < i < 0 ==> r == -i,
        1 <= size && -(size - 1) <= i <= 2 * size - 2 ==> r < size,
{
    let j: i32 = if i < 0 {
        -i
    } else if i >= size {
        2 * size - i - 2
    } else {
        i
    };
    if j < 0 {
        0
    } else {
        j as usize
    }
}

} // verus!
