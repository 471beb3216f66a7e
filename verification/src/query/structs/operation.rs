use vstd::prelude::*;

verus! {

/// The statement kinds of the engine.
#[derive(Debug, PartialEq, Eq, Clone, Copy, Structural)]
pub enum Operation {
    /// Not a statement that the engine knows.
    Unknown,
    Select,
    Update,
    Delete,
    Insert,
}

} // verus!
