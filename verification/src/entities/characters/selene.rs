use vstd::prelude::*;

use crate::control::ground::{GroundControlDirection, GroundControlState, GroundControlStatePrevious};
use crate::entity::Entity;
use crate::text::str_eq;

verus! {

/// Selene, the player's character, with the entity of her hair.
#[derive(Debug, Clone, Copy, PartialEq, Eq, Structural)]
pub struct Selene {
    pub hair: Entity,
}

impl Selene {
    /// The identifier of Selene's placed entities.
    pub const IDENT: &'static str = "selene";

    pub const IDLE: &'static str = "idle";

    pub const RUN_LEFT: &'static str = "run_left";

    pub const RUN_TRANS_LEFT: &'static str = "run_trans_left";

    pub const RUN_RIGHT: &'static str = "run_right";

    pub const RUN_TRANS_RIGHT: &'static str = "run_trans_right";
}

/// Whether an animation loops or stops at its end.
#[derive(Debug, Clone, Copy, PartialEq, Eq, Structural)]
pub enum AnimationRepeat {
    Loop,
    Halt,
}

/// Whether an animation continues from the frame of the previous one or starts afresh.
#[derive(Debug, Clone, Copy, PartialEq, Eq, Structural)]
pub enum AnimationTransition {
    Continuous,
    Discrete,
}

/// The animation that Selene switches to when her current animation `tag` halts or loops, in
/// the control `state`: a running start becomes the run of its foot; a stop becomes idle; each
/// run foot is followed by the other.
pub open spec fn after_animation_end(tag: Seq<char>, state: GroundControlState) -> Option<(Seq<char>, AnimationRepeat, AnimationTransition)> {
    if tag == Selene::RUN_TRANS_LEFT@ && state == (GroundControlState::Run { decelerating: false }) {
        Some((Selene::RUN_LEFT@, AnimationRepeat::Loop, AnimationTransition::Continuous))
    } else if tag == Selene::RUN_TRANS_RIGHT@ && state == (GroundControlState::Run { decelerating: false }) {
        Some((Selene::RUN_RIGHT@, AnimationRepeat::Loop, AnimationTransition::Continuous))
    } else if (tag == Selene::RUN_TRANS_LEFT@ || tag == Selene::RUN_TRANS_RIGHT@) && state == GroundControlState::Idle {
        Some((Selene::IDLE@, AnimationRepeat::Halt, AnimationTransition::Discrete))
    } else if tag == Selene::RUN_LEFT@ {
        Some((Selene::RUN_RIGHT@, AnimationRepeat::Loop, AnimationTransition::Continuous))
    } else if tag == Selene::RUN_RIGHT@ {
        Some((Selene::RUN_LEFT@, AnimationRepeat::Loop, AnimationTransition::Continuous))
    } else {
        None
    }
}

/// Running alternates the feet, whatever the control state: when the run of one foot ends, the
/// run of the other foot follows (looping, continuing from where the animation is), never the
/// same foot again.
pub proof fn law_run_feet_alternate(state: GroundControlState)
    ensures
        Selene::RUN_LEFT@ != Selene::RUN_RIGHT@,
        after_animation_end(Selene::RUN_LEFT@, state) == Some(
            (Selene::RUN_RIGHT@, AnimationRepeat::Loop, AnimationTransition::Continuous),
        ),
        after_animation_end(Selene::RUN_RIGHT@, state) == Some(
            (Selene::RUN_LEFT@, AnimationRepeat::Loop, AnimationTransition::Continuous),
        ),
{
    reveal_strlit("run_left");
    reveal_strlit("run_right");
    reveal_strlit("run_trans_left");
    reveal_strlit("run_trans_right");
    assert(Selene::RUN_LEFT@.len() != Selene::RUN_TRANS_LEFT@.len());
    assert(Selene::RUN_LEFT@.len() != Selene::RUN_TRANS_RIGHT@.len());
    assert(Selene::RUN_RIGHT@.len() != Selene::RUN_TRANS_LEFT@.len());
    assert(Selene::RUN_RIGHT@.len() != Selene::RUN_TRANS_RIGHT@.len());
    assert(Selene::RUN_LEFT@[4] != Selene::RUN_RIGHT@[4]);
}

/// The animation that Selene switches to when her control state changes from `previous` to
/// `state` (or her direction changes) while playing `tag`: starting to run plays a running
/// start; stopping a run plays the stop of the current foot (nothing while already stopping,
/// and the left one from any other animation); idling and jumping play the idle animation.
pub open spec fn after_state_change(
    tag: Seq<char>,
    previous: GroundControlState,
    state: GroundControlState,
) -> Option<(Seq<char>, AnimationRepeat, AnimationTransition)> {
    if state == (GroundControlState::Run { decelerating: false }) {
        Some((Selene::RUN_TRANS_LEFT@, AnimationRepeat::Halt, AnimationTransition::Discrete))
    } else if previous == (GroundControlState::Run { decelerating: false }) && (state == (GroundControlState::Run {
        decelerating: true,
    }) || state == GroundControlState::Idle) {
        if tag == Selene::RUN_LEFT@ {
            Some((Selene::RUN_TRANS_LEFT@, AnimationRepeat::Halt, AnimationTransition::Discrete))
        } else if tag == Selene::RUN_RIGHT@ {
            Some((Selene::RUN_TRANS_RIGHT@, AnimationRepeat::Halt, AnimationTransition::Discrete))
        } else if tag == Selene::RUN_TRANS_LEFT@ || tag == Selene::RUN_TRANS_RIGHT@ {
            None
        } else {
            Some((Selene::RUN_TRANS_LEFT@, AnimationRepeat::Halt, AnimationTransition::Discrete))
        }
    } else if state == GroundControlState::Idle || state == GroundControlState::Jump {
        Some((Selene::IDLE@, AnimationRepeat::Halt, AnimationTransition::Discrete))
    } else {
        None
    }
}

/// How Selene's animation reacts in a frame.
pub struct SeleneAnimationReaction {
    /// The animation to switch to, if any.
    pub animation: Option<(&'static str, AnimationRepeat, AnimationTransition)>,
    /// The side to face, when her state or direction changed.
    pub facing: Option<GroundControlDirection>,
}

fn after_animation_end_exec(tag: &str, state: GroundControlState) -> (r: Option<(&'static str, AnimationRepeat, AnimationTransition)>)
    ensures
        match r {
            Some((t, rep, tr)) => after_animation_end(tag@, state) == Some((t@, rep, tr)),
            None => after_animation_end(tag@, state) is None,
        },
{
    let running = GroundControlState::Run { decelerating: false };
    if str_eq(tag, Selene::RUN_TRANS_LEFT) && state == running {
        Some((Selene::RUN_LEFT, AnimationRepeat::Loop, AnimationTransition::Continuous))
    } else if str_eq(tag, Selene::RUN_TRANS_RIGHT) && state == running {
        Some((Selene::RUN_RIGHT, AnimationRepeat::Loop, AnimationTransition::Continuous))
    } else if (str_eq(tag, Selene::RUN_TRANS_LEFT) || str_eq(tag, Selene::RUN_TRANS_RIGHT)) && state
        == GroundControlState::Idle {
        Some((Selene::IDLE, AnimationRepeat::Halt, AnimationTransition::Discrete))
    } else if str_eq(tag, Selene::RUN_LEFT) {
        Some((Selene::RUN_RIGHT, AnimationRepeat::Loop, AnimationTransition::Continuous))
    } else if str_eq(tag, Selene::RUN_RIGHT) {
        Some((Selene::RUN_LEFT, AnimationRepeat::Loop, AnimationTransition::Continuous))
    } else {
        None
    }
}

fn after_state_change_exec(tag: &str, previous: GroundControlState, state: GroundControlState) -> (r: Option<
    (&'static str, AnimationRepeat, AnimationTransition),
>)
    ensures
        match r {
            Some((t, rep, tr)) => after_state_change(tag@, previous, state) == Some((t@, rep, tr)),
            None => after_state_change(tag@, previous, state) is None,
        },
{
    let running = GroundControlState::Run { decelerating: false };
    if state == running {
        Some((Selene::RUN_TRANS_LEFT, AnimationRepeat::Halt, AnimationTransition::Discrete))
    } else if previous == running && (state == (GroundControlState::Run { decelerating: true }) || state
        == GroundControlState::Idle) {
        if str_eq(tag, Selene::RUN_LEFT) {
            Some((Selene::RUN_TRANS_LEFT, AnimationRepeat::Halt, AnimationTransition::Discrete))
        } else if str_eq(tag, Selene::RUN_RIGHT) {
            Some((Selene::RUN_TRANS_RIGHT, AnimationRepeat::Halt, AnimationTransition::Discrete))
        } else if str_eq(tag, Selene::RUN_TRANS_LEFT) || str_eq(tag, Selene::RUN_TRANS_RIGHT) {
            None
        } else {
            Some((Selene::RUN_TRANS_LEFT, AnimationRepeat::Halt, AnimationTransition::Discrete))
        }
    } else if state == GroundControlState::Idle || state == GroundControlState::Jump {
        Some((Selene::IDLE, AnimationRepeat::Halt, AnimationTransition::Discrete))
    } else {
        None
    }
}

/// How Selene's animation reacts in a frame, playing `tag`: when the animation just halted or
/// looped, it moves on (see [`after_animation_end`]); when her control state or direction
/// changed, she faces her direction and the animation follows the change (see
/// [`after_state_change`]), which takes precedence.
pub fn react_selene_animations(
    tag: &str,
    ended: bool,
    changed: bool,
    previous: GroundControlStatePrevious,
    state: GroundControlState,
    direction: GroundControlDirection,
) -> (r: SeleneAnimationReaction)
    ensures
        r.facing == (if changed { Some(direction) } else { None }),
        ({
            let on_change = if changed { after_state_change(tag@, previous.0, state) } else { None };
            let on_end = if ended { after_animation_end(tag@, state) } else { None };
            let expected = if on_change is Some { on_change } else { on_end };
            match r.animation {
                Some((t, rep, tr)) => expected == Some((t@, rep, tr)),
                None => expected is None,
            }
        }),
{
    let mut animation: Option<(&'static str, AnimationRepeat, AnimationTransition)> = None;
    if ended {
        animation = after_animation_end_exec(tag, state);
    }
    let mut facing: Option<GroundControlDirection> = None;
    if changed {
        facing = Some(direction);
        match after_state_change_exec(tag, previous.0, state) {
            Some(a) => {
                animation = Some(a);
            },
            None => {},
        }
    }
    SeleneAnimationReaction { animation, facing }
}

} // verus!
