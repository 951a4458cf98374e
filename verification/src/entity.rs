use vstd::prelude::*;

verus! {

/// Identifier of an entity in the game world, as its 64-bit encoding.
#[derive(Debug, Clone, Copy, PartialEq, Eq, Hash, Structural)]
pub struct Entity(pub u64);

/// The encoding of the placeholder entity (index `u32::MAX`, generation one).
pub const PLACEHOLDER_BITS: u64 = 0x1_FFFF_FFFF;

impl Entity {
    /// The placeholder entity, standing for "no particular entity".
    pub fn placeholder() -> (e: Entity)
        ensures
            e.0 == PLACEHOLDER_BITS,
    {
        Entity(PLACEHOLDER_BITS)
    }
}

} // verus!
