use vstd::prelude::*;

use crate::text::str_eq;

pub mod penumbra_wing_l;

verus! {

/// The systems that move from one part of a level to the next.
#[derive(Debug, Clone, Copy, PartialEq, Eq, Structural, Default)]
pub struct LevelTransitionSet;

/// Whether the game is in the level `id`, given the identifiers of the levels present that are
/// not being unloaded: there must be exactly one, and it must be that level.
pub fn in_level(present: &Vec<String>, id: &str) -> (b: bool)
    ensures
        b == (present@.len() == 1 && present@[0]@ == id@),
{
    if present.len() == 1 {
        str_eq(present[0].as_str(), id)
    } else {
        false
    }
}

} // verus!
