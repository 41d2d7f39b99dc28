//! A node of a value-carrying chain. Only the value a node holds is
//! modeled; the links between nodes are out of scope, so appending a value
//! allocates nothing reachable and leaves the receiving node as it was.

use vstd::prelude::*;

verus! {

/// One node of the chain, holding its value.
#[derive(Clone)]
pub struct Node {
    pub value: String,
}

impl Node {
    /// Accepts a value for the chain. The links are not modeled, so the
    /// node itself stays unchanged.
    pub fn append(&mut self, value: String)
        ensures
            final(self).value@ == old(self).value@,
    {
        let _unlinked = value;
    }
}

} // verus!
