//! A struct for the data and a trait for the behaviour, kept separate.

use vstd::prelude::*;

verus! {

/// Something that can be brought into an open state.
pub trait Openable {
    /// Whether the thing currently counts as open.
    spec fn is_opened(&self) -> bool;

    /// Opens the thing; afterwards it counts as open.
    fn open(&mut self)
        ensures
            final(self).is_opened(),
    ;
}

/// A door that is either open or shut.
pub struct Door {
    pub is_open: bool,
}

impl Door {
    /// Makes a door in the given state.
    pub fn new(is_open: bool) -> (r: Door)
        ensures
            r.is_open == is_open,
    {
        Door { is_open }
    }
}

impl Openable for Door {
    open spec fn is_opened(&self) -> bool {
        self.is_open
    }

    fn open(&mut self) {
        self.is_open = true;
    }
}

} // verus!
