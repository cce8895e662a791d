//! What the declarative macros of the examples expand to, written out.
use vstd::prelude::*;

verus! {

/// A person, as the struct-building macro defines it.
pub struct Person {
    pub name: String,
    pub age: u32,
}

impl Person {
    /// The constructor that the struct-building macro generates.
    pub fn new(name: String, age: u32) -> (p: Self)
        ensures
            p.name == name,
            p.age == age,
    {
        Self { name, age }
    }
}

} // verus!
