use vstd::prelude::*;

verus! {

/// The positions, in the ascending order of `len` proposals, of the values
/// whose mean is the harmonic (median) component: the single middle position
/// when `len` is odd, the two middle positions when it is even.
pub open spec fn median_window_spec(len: nat) -> (int, int) {
    ((len as int - 1) / 2, len as int / 2)
}

/// Choose the median positions of `len` sorted proposals. An odd count
/// gives the middle position twice; an even count gives the two middle
/// positions, whose values the harmonic component averages.
///
/// Decomposing no proposals at all is refused, so `len` is positive.
pub fn median_window(len: usize) -> (w: (usize, usize))
    requires
        len > 0,
    ensures
        (w.0 as int, w.1 as int) == median_window_spec(len as nat),
        // The window is centred: as many positions lie before it as after it.
        w.0 == len - 1 - w.1,
        w.0 <= w.1 < len,
        len % 2 == 1 ==> w.0 == w.1,
        len % 2 == 0 ==> w.0 + 1 == w.1,
{
    let mid = len / 2;
    if len % 2 == 0 {
        (mid - 1, mid)
    } else {
        (mid, mid)
    }
}

} // verus!
