//! The render path: writing one stereo sample to the channels of a frame.

use vstd::prelude::*;

verus! {

/// Whether channel `i` of a frame carries the left sample: the even
/// channels do, the odd ones carry the right.
pub open spec fn is_left(i: int) -> bool {
    i % 2 == 0
}

/// Writes a stereo sample to a frame: `left` to its even channels and
/// `right` to its odd ones.
pub fn fill_frame<T: Copy>(frame: &mut [T], left: T, right: T)
    ensures
        final(frame)@.len() == old(frame)@.len(),
        forall|i: int|
            0 <= i < final(frame)@.len() ==> final(frame)@[i] == if is_left(i) {
                left
            } else {
                right
            },
{
    let n = frame.len();
    let mut channel: usize = 0;
    while channel < n
        invariant
            channel <= n,
            frame@.len() == n,
            forall|i: int|
                0 <= i < channel ==> frame@[i] == if is_left(i) {
                    left
                } else {
                    right
                },
        decreases n - channel,
    {
        if channel & 1 == 0 {
            assert(channel & 1 == 0 ==> channel % 2 == 0) by (bit_vector);
            frame[channel] = left;
        } else {
            assert(channel & 1 != 0 ==> channel % 2 != 0) by (bit_vector);
            frame[channel] = right;
        }
        channel += 1;
    }
}

} // verus!
