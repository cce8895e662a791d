//! The function that the module's own tests exercise.
use vstd::prelude::*;

verus! {

/// The sum of `a` and `b`.
pub fn add(a: i32, b: i32) -> (r: i32)
    requires
        i32::MIN <= a + b <= i32::MAX,
    ensures
        r == a + b,
{
    a + b
}

} // verus!
