//! The connected storage devices of a machine, described: the device and
//! mount point model with its JSON shape, and the decisions of the Windows
//! enumeration, each taken from plain answers of the system.

pub mod device;
pub mod text;
pub mod windows;

use vstd::prelude::*;

verus! {

/// Sum of two sizes.
pub fn add(left: usize, right: usize) -> (sum: usize)
    requires
        left + right <= usize::MAX,
    ensures
        sum == left + right,
{
    left + right
}

} // verus!
