//! Data models.
use vstd::prelude::*;

verus! {

/// A user, by name.
pub struct User {
    pub name: String,
}

} // verus!
