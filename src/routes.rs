use vstd::prelude::*;

verus! {

/// The greeting served at the root path.
pub fn index() -> (r: &'static str)
    ensures
        r@ == "Hello, world!"@,
{
    "Hello, world!"
}

} // verus!
