//! Borrowing: string slices taken through shared references, and mutation
//! through a mutable one.
use vstd::prelude::*;
use crate::text::{prefix_before, prefix_until, ascii_upper, make_ascii_uppercase};

verus! {

/// The first word of `s`: everything in front of the first space, or all of `s`
/// when it has none.
pub fn first_word(s: &str) -> (r: &str)
    ensures
        r@ == prefix_before(s@, ' '),
{
    prefix_until(s, ' ')
}

/// Upper-cases the ASCII letters of `s` through a mutable reference.
pub fn modify_string_ref(s: &mut String)
    ensures
        final(s)@ == old(s)@.map_values(|c: char| ascii_upper(c)),
        final(s)@.len() == old(s)@.len(),
        forall|i: int| 0 <= i < final(s)@.len() ==> !('a' <= #[trigger] final(s)@[i] <= 'z'),
        forall|i: int|
            0 <= i < old(s)@.len() && !('a' <= #[trigger] old(s)@[i] <= 'z') ==> final(s)@[i] == old(s)@[i],
        forall|i: int|
            0 <= i < old(s)@.len() && 'a' <= #[trigger] old(s)@[i] <= 'z' ==> final(s)@[i] as u32 + 32
                == old(s)@[i] as u32,
{
    make_ascii_uppercase(s);
}

} // verus!
