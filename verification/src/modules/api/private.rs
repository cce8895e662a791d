//! Implementation details that only the parent module can reach.
use vstd::prelude::*;
use vstd::string::*;

verus! {

/// `"内部帮助函数"`.
pub fn helper() -> (r: String)
    ensures
        r@ == "内部帮助函数"@,
{
    String::from_str("内部帮助函数")
}

} // verus!
