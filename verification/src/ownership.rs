//! Moving, borrowing and mutating an owned `String`.
use vstd::prelude::*;
use vstd::string::*;
use crate::text::byte_len;

verus! {

/// Creates a fresh `String` and hands its ownership to the caller.
pub fn give_ownership() -> (s: String)
    ensures
        s@ == "hello"@,
{
    String::from_str("hello")
}

/// Takes ownership of `s` and gives it straight back.
pub fn take_and_give(s: String) -> (r: String)
    ensures
        r == s,
{
    s
}

/// The length of `s` in bytes, read through a shared borrow.
pub fn calculate_length(s: &String) -> (n: usize)
    ensures
        n == byte_len(s@) as usize,
{
    s.as_str().len()
}

/// Appends `", world"` through a mutable borrow.
pub fn change(s: &mut String)
    ensures
        final(s)@ == old(s)@ + ", world"@,
{
    s.append(", world");
}

} // verus!
