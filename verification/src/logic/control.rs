use vstd::prelude::*;

use crate::config::{AttractedInputMap, Config, KeyboardBindings, LaunchInputMap, PlayerInputMap};

verus! {

/// What the player does: moving (along two axes) and attacking.
#[derive(Debug, Clone, Copy, PartialEq, Eq, Structural, Hash)]
pub enum PlayerAction {
    Move,
    Attack,
}

/// Marks the entity that the player controls.
#[derive(Debug, Clone, Copy, PartialEq, Eq, Structural, Default)]
pub struct IsPlayer;

/// The input maps that an entity becoming the player gets: those of the configured keyboard
/// bindings.
pub fn sync_input_map(bindings: &Config<KeyboardBindings>) -> (m: (PlayerInputMap, AttractedInputMap, LaunchInputMap))
    ensures
        m.0.attack == bindings.spec_inner().player_attack,
        m.0.move_dpad@ == bindings.spec_inner().player_move@,
        m.1.precise == bindings.spec_inner().attracted_precise,
        m.1.parry == bindings.spec_inner().attracted_parry,
        m.1.accel@ == bindings.spec_inner().attracted_accel@,
        m.1.hover@ == bindings.spec_inner().attracted_hover@,
        m.2.launch == bindings.spec_inner().launch,
{
    bindings.inner().create_input_maps()
}

} // verus!
