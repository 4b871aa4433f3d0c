use vstd::prelude::*;

verus! {

/// The group of shapes drawn in the world.
#[derive(Debug, Default, Clone, Copy)]
pub struct WorldSdf;

/// The group of shapes drawn in the user interface.
#[derive(Debug, Default, Clone, Copy)]
pub struct UiSdf;

} // verus!
