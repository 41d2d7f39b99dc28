//! Linear search that signals absence with an explicit `None` instead of an
//! error: the caller inspects the result and branches on it.

use vstd::prelude::*;

verus! {

/// Returns the index of the first occurrence of `needle` in `haystack`,
/// or `None` when the value is absent.
pub fn find(needle: u16, haystack: Vec<u16>) -> (r: Option<usize>)
    ensures
        r matches Some(i) ==> i < haystack@.len() && haystack@[i as int] == needle,
        r matches Some(i) ==> forall|j: int| 0 <= j < i ==> haystack@[j] != needle,
        r is None ==> forall|j: int| 0 <= j < haystack@.len() ==> haystack@[j] != needle,
{
    let mut i: usize = 0;
    while i < haystack.len()
        invariant
            i <= haystack@.len(),
            forall|j: int| 0 <= j < i ==> haystack@[j] != needle,
        decreases haystack@.len() - i,
    {
        if haystack[i] == needle {
            return Some(i);
        }
        i = i + 1;
    }
    None
}

} // verus!
