use vstd::prelude::*;

verus! {

/// Marks a value that has been checked against a screen's bounds.
#[derive(Debug, Clone, Copy)]
pub struct Valid;

/// Marks a value that has not been checked against any screen's bounds yet.
#[derive(Debug, Clone, Copy)]
pub struct Unchecked;

} // verus!
