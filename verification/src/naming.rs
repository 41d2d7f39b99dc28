//! A file name split into its stem and extension, with both parts behind
//! reference counters so several owners can share them cheaply.

use std::rc::Rc;
use vstd::prelude::*;

verus! {

/// A file name: the stem and the extension, each shared by reference count.
#[derive(Debug)]
pub struct FileName {
    pub name: Rc<String>,
    pub ext: Rc<String>,
}

} // verus!
