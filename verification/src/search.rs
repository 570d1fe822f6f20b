//! First match in a sequence of flags.
//!
//! Both protocols look for the first row or the first name that fits. The
//! fit of each place is written as a flag, and the search is stated once
//! over the flags.

use vstd::prelude::*;

verus! {

/// Whether `i` is the first index at which `flags` is set.
pub open spec fn is_first(flags: Seq<bool>, i: int) -> bool {
    &&& 0 <= i < flags.len()
    &&& flags[i]
    &&& forall|j: int| 0 <= j < i ==> !flags[j]
}

/// The first index at which `flags` is set, if there is one.
pub open spec fn first_index(flags: Seq<bool>) -> Option<int> {
    if exists|i: int| is_first(flags, i) {
        Some(choose|i: int| is_first(flags, i))
    } else {
        None
    }
}

/// Where some flag is set, a first one is.
pub proof fn lemma_first_exists(flags: Seq<bool>, i: int)
    requires
        0 <= i < flags.len(),
        flags[i],
    ensures
        first_index(flags) is Some,
        is_first(flags, first_index(flags)->0),
        first_index(flags)->0 <= i,
    decreases i,
{
    if exists|j: int| 0 <= j < i && flags[j] {
        let j = choose|j: int| 0 <= j < i && flags[j];
        lemma_first_exists(flags, j);
    } else {
        assert(is_first(flags, i));
    }
}

/// Where no flag is set, there is no first one.
pub proof fn lemma_first_none(flags: Seq<bool>)
    requires
        forall|i: int| 0 <= i < flags.len() ==> !flags[i],
    ensures
        first_index(flags) is None,
{
}

} // verus!
