//! A public entry point in front of a private implementation.
use vstd::prelude::*;
use vstd::string::*;

mod private;

verus! {

/// What the private helper returns.
pub fn process() -> (r: String)
    ensures
        r@ == "内部帮助函数"@,
{
    private::helper()
}

} // verus!
