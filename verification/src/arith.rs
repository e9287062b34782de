//! Small arithmetic helpers used by the driver's demonstrations.

use vstd::prelude::*;

verus! {

/// The product of two numbers.
pub fn mul(x: u32, y: u32) -> (r: u32)
    requires
        x * y <= u32::MAX,
    ensures
        r == x * y,
{
    x * y
}

/// The sum of two numbers.
pub fn add(x: u32, y: u32) -> (r: u32)
    requires
        x + y <= u32::MAX,
    ensures
        r == x + y,
{
    x + y
}

/// A number multiplied by itself.
pub fn square(x: u64) -> (r: u64)
    requires
        x * x <= u64::MAX,
    ensures
        r == x * x,
{
    x * x
}

} // verus!
