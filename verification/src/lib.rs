//! Small verified demonstrations of shared-state counting, linear search,
//! text cleanup, and struct/trait composition.

pub mod chain;
pub mod counter;
pub mod door;
pub mod naming;
pub mod search;
pub mod text;
