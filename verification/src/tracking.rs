//! Wrapping tracking timestamps.
//!
//! Insertions, modifications, deletions and removals are stamped with a
//! wrapping counter.  A timestamp counts as *within bounds* when it lies
//! after `last` and not after `current`, measured along the wrapping
//! distance from `last`.

use vstd::prelude::*;

verus! {

/// How far `to` lies after `from` on the wrapping counter.
pub open spec fn wrapping_distance(from: u32, to: u32) -> int {
    (to as int - from as int) % 0x1_0000_0000
}

/// Whether a timestamp lies after `last` and not after `current` on the
/// wrapping counter.
pub open spec fn track_within_bounds(timestamp: u32, last: u32, current: u32) -> bool {
    0 < wrapping_distance(last, timestamp) <= wrapping_distance(last, current)
}

/// Whether a timestamp lies after `last` and not after `current` on the
/// wrapping counter.
pub fn is_track_within_bounds(timestamp: u32, last: u32, current: u32) -> (r: bool)
    ensures
        r == track_within_bounds(timestamp, last, current),
{
    let d1 = timestamp.wrapping_sub(last);
    let d2 = current.wrapping_sub(last);
    proof {
        lemma_wrapping_sub_is_distance(timestamp, last);
        lemma_wrapping_sub_is_distance(current, last);
    }
    d1 > 0 && d1 <= d2
}

/// The wrapping subtraction computes the wrapping distance.
proof fn lemma_wrapping_sub_is_distance(a: u32, b: u32)
    ensures
        vstd::wrapping::u32_specs::wrapping_sub(a, b) == wrapping_distance(b, a),
{
    let m = 0x1_0000_0000int;
    let d = a as int - b as int;
    if d < 0 {
        assert(d % m == d + m) by (nonlinear_arith)
            requires
                -m <= d < 0,
        ;
    } else {
        assert(d % m == d) by (nonlinear_arith)
            requires
                0 <= d < m,
        ;
    }
}

} // verus!
