//! Choices that the window set-up leaves to the program.

use vstd::prelude::*;

verus! {

/// Whether `i` is the index of the configuration to pick: the first one
/// that supports transparency, or the first one of all if none does.
pub open spec fn spec_is_picked(transparent: Seq<bool>, i: int) -> bool {
    &&& 0 <= i < transparent.len()
    &&& forall|j: int| 0 <= j < i ==> !transparent[j]
    &&& transparent[i] || (i == 0 && forall|j: int| 0 <= j < transparent.len() ==> !transparent[j])
}

/// Picks a display configuration. `transparent` says of each offered
/// configuration, in the order of the offer, whether it supports a
/// transparent window. The number of samples plays no part.
pub fn gl_config_picker(transparent: &Vec<bool>) -> (picked: usize)
    requires
        transparent@.len() > 0,
    ensures
        spec_is_picked(transparent@, picked as int),
{
    let mut i: usize = 0;
    while i < transparent.len()
        invariant
            i <= transparent.len(),
            forall|j: int| 0 <= j < i ==> !transparent@[j],
        decreases transparent.len() - i,
    {
        if transparent[i] {
            return i;
        }
        i += 1;
    }
    0
}

} // verus!
