use vstd::prelude::*;

pub mod ground;

verus! {

/// The input action of moving.
#[derive(Debug, Clone, Copy, PartialEq, Eq, Structural, Default)]
pub struct Movement;

/// The input action of jumping.
#[derive(Debug, Clone, Copy, PartialEq, Eq, Structural, Default)]
pub struct Jump;

/// The key bindings of the controls (none yet).
#[derive(Debug, Clone, Copy, PartialEq, Eq, Structural, Default)]
pub struct Keybinds {}

/// Marks an entity controlled like a grounded character.
#[derive(Debug, Clone, Copy, PartialEq, Eq, Structural, Default)]
pub struct GroundedController {}

} // verus!
