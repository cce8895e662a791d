//! Arithmetic behind a module boundary, with a private helper.
use vstd::prelude::*;

verus! {

/// Visible inside this module only.
fn internal_helper() -> (r: i32)
    ensures
        r == 42,
{
    42
}

/// The sum of `a` and `b`.
pub fn add(a: i32, b: i32) -> (r: i32)
    requires
        i32::MIN <= a + b <= i32::MAX,
    ensures
        r == a + b,
{
    a + b
}

/// The product of `a` and `b`.
pub fn multiply(a: i32, b: i32) -> (r: i32)
    requires
        i32::MIN <= a * b <= i32::MAX,
    ensures
        r == a * b,
{
    a * b
}

/// The value of the private helper: 42.
pub fn get_secret() -> (r: i32)
    ensures
        r == 42,
{
    internal_helper()
}

} // verus!
