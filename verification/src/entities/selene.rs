use vstd::prelude::*;

verus! {

/// Selene, the player's character.
#[derive(Debug, Clone, Copy, PartialEq, Eq, Structural, Default)]
pub struct Selene;

impl Selene {
    /// The identifier of Selene's placed entities.
    pub const IDENT: &'static str = "selene";

    /// Her idle animation.
    pub const IDLE: &'static str = "idle";
}

} // verus!
