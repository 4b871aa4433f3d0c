pub mod arena;
pub mod extract;

use vstd::prelude::*;

verus! {

/// Where a component's index goes in an entity's index map: the
/// component's position in its group and the extension it is forced on.
#[derive(Debug, Clone, Copy, PartialEq, Eq, Structural)]
pub struct ComponentPosition {
    pub position: u8,
    pub extension_override: Option<u8>,
}

impl ComponentPosition {
    /// The position `position`, on the extension `extension_override` if any.
    pub fn new(position: u8, extension_override: Option<u8>) -> (r: Self)
        ensures
            r.position == position,
            r.extension_override == extension_override,
    {
        Self { position, extension_override }
    }
}

} // verus!
