use vstd::prelude::*;

verus! {

/// A procedure that does nothing and returns the unit value.
pub fn noop() -> (u: ())
    ensures
        u == (),
{
}

} // verus!
