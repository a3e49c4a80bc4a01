use vstd::prelude::*;

verus! {

/// A procedure that does nothing, reached through a long module path.
pub fn nested_noop() -> (u: ())
    ensures
        u == (),
{
}

} // verus!
