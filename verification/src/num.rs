//! Counters that stop at the largest value they can hold.

use vstd::prelude::*;

verus! {

/// The largest `usize` that is not above `n`.
pub open spec fn sat(n: int) -> usize {
    if n > usize::MAX {
        usize::MAX
    } else {
        n as usize
    }
}

} // verus!
