use vstd::prelude::*;

pub mod bridge;
pub mod duration;
pub mod engine;
pub mod shared;
pub mod text;

verus! {

/// Adds two unsigned integers.
pub fn add(left: u64, right: u64) -> (sum: u64)
    requires
        left + right <= u64::MAX,
    ensures
        sum == left + right,
{
    left + right
}

} // verus!
