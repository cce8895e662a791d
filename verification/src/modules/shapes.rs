//! A struct with public and private fields, and public tuple and unit structs.
use vstd::prelude::*;

verus! {

/// A rectangle whose id only its own methods can see.
#[derive(Debug)]
pub struct Rectangle {
    pub width: u32,
    pub height: u32,
    internal_id: u32,
}

impl Rectangle {
    /// Width and height.
    pub closed spec fn sides(&self) -> (u32, u32) {
        (self.width, self.height)
    }

    /// The private id.
    pub closed spec fn id(&self) -> u32 {
        self.internal_id
    }

    /// A rectangle with these sides and id 0.
    pub fn new(width: u32, height: u32) -> (r: Self)
        ensures
            r.sides() == (width, height),
            r.id() == 0,
    {
        Rectangle { width, height, internal_id: 0 }
    }

    /// Reads the private id.
    pub fn get_id(&self) -> (r: u32)
        ensures
            r == self.id(),
    {
        self.internal_id
    }
}

/// A point with public coordinates.
pub struct Point(pub i32, pub i32);

/// A struct without fields.
pub struct Unit;

} // verus!
