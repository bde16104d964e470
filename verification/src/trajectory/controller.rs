use vstd::prelude::*;

verus! {

/// Default of the controller options that are switched on unless stated otherwise.
pub fn default_true() -> (r: bool)
    ensures
        r,
{
    true
}

} // verus!
