pub mod launchable;
pub mod selene_penumbra;
pub mod bullet;
pub mod thorn_pillar;
pub mod thorn_ring;
pub mod attractor;

use vstd::prelude::*;

verus! {

/// Marks an entity of the penumbra.
#[derive(Debug, Clone, Copy, PartialEq, Eq, Structural, Default)]
pub struct PenumbraEntity;

} // verus!
