use vstd::prelude::*;

use crate::entity::Entity;
use crate::logic::level::LevelEntities;
use crate::time::Duration;

verus! {

/// The unique identifier of Selene in the level.
pub const SELENE: u128 = 0x332e5310_3740_11f0_b0d1_4b444b848a1e;

/// The unique identifier of the attractor in the level.
pub const ATTRACTOR: u128 = 0x8226eab0_3740_11f0_b0d1_31c3cf318fb2;

/// The unique identifier of the thorn ring in the level.
pub const RING: u128 = 0x516847d0_3740_11f0_bea9_db42cbfffb80;

/// The unique identifier of the hover target in the level.
pub const HOVER_TARGET: u128 = 0xddc89020_3740_11f0_bea9_17dccf039850;

/// How long Selene must stay on the hover target before the hint about accelerating shows
/// when she leaves it (half a second).
pub const TUTORIAL_MOVE_ALIGN_HELP: Duration = 500_000_000;

/// How long Selene must stay on the hover target to finish the hovering tutorial (five
/// seconds).
pub const TUTORIAL_MOVE_ALIGN_DURATION: Duration = 5_000_000_000;

/// Whether the introduction of the level was already shown.
#[derive(Debug, Clone, Copy, PartialEq, Eq, Structural, Default)]
pub struct IntroShown(pub bool);

/// The tutorial interface currently shown beside Selene, if any.
#[derive(Debug, Clone, Copy, PartialEq, Eq, Structural, Default)]
pub struct SeleneUi(pub Option<Entity>);

/// Selene came back after being killed.
#[derive(Debug, Clone, Copy, PartialEq, Eq, Structural, Default)]
pub struct Respawned;

/// The effect of something spawning, flying towards `target_pos`.
#[derive(Debug, Clone, Copy, PartialEq, Eq, Default)]
pub struct SpawnEffect<V> {
    pub target_pos: V,
}

/// The entities that the level's script works with.
#[derive(Debug, Clone, Copy, PartialEq, Eq, Structural)]
pub struct ScriptEntities {
    pub selene: Entity,
    pub attractor: Entity,
    pub ring: Entity,
    pub hover_target: Entity,
}

/// Whether a level holds the entities of the script.
pub open spec fn has_script_entities(entities: LevelEntities) -> bool {
    &&& entities.0@.contains_key(SELENE)
    &&& entities.0@.contains_key(ATTRACTOR)
    &&& entities.0@.contains_key(RING)
    &&& entities.0@.contains_key(HOVER_TARGET)
}

/// The entities that the level's script works with, unless the introduction was already shown
/// (then the level plays no script).
pub fn script_entities(intro_shown: IntroShown, entities: &LevelEntities) -> (r: Option<ScriptEntities>)
    requires
        !intro_shown.0 ==> has_script_entities(*entities),
    ensures
        intro_shown.0 ==> r is None,
        !intro_shown.0 ==> r == Some(ScriptEntities {
            selene: entities.0@[SELENE],
            attractor: entities.0@[ATTRACTOR],
            ring: entities.0@[RING],
            hover_target: entities.0@[HOVER_TARGET],
        }),
{
    if intro_shown.0 {
        return None;
    }
    let selene = match entities.get(SELENE) {
        Ok(e) => e,
        Err(_) => {
            return None;
        },
    };
    let attractor = match entities.get(ATTRACTOR) {
        Ok(e) => e,
        Err(_) => {
            return None;
        },
    };
    let ring = match entities.get(RING) {
        Ok(e) => e,
        Err(_) => {
            return None;
        },
    };
    let hover_target = match entities.get(HOVER_TARGET) {
        Ok(e) => e,
        Err(_) => {
            return None;
        },
    };
    Some(ScriptEntities { selene, attractor, ring, hover_target })
}

/// The parts of the level's script, in order.
#[derive(Debug, Clone, Copy, PartialEq, Eq, Structural)]
pub enum TutorialPhase {
    SpawningAttractor,
    SpawningSelene,
    Align,
    Launch,
    ParryOne,
    ParryMultiple,
    End,
}

/// How the launching tutorial went: `Special` while no bullet got past Selene's parries,
/// `Normal` once one did.
#[derive(Debug, Clone, Copy, PartialEq, Eq, Structural, Default)]
pub enum TutorialLaunch {
    Normal,
    #[default]
    Special,
}

/// The part of the script that starts when `phase` ends, given how the launching tutorial went:
/// after it, the parrying lessons follow on the `Normal` outcome and are skipped on the
/// `Special` one (the player already knows how to parry); nothing follows the end.
pub fn next_phase(phase: TutorialPhase, launch: TutorialLaunch) -> (n: Option<TutorialPhase>)
    ensures
        n == match phase {
            TutorialPhase::SpawningAttractor => Some(TutorialPhase::SpawningSelene),
            TutorialPhase::SpawningSelene => Some(TutorialPhase::Align),
            TutorialPhase::Align => Some(TutorialPhase::Launch),
            TutorialPhase::Launch => if launch == TutorialLaunch::Normal {
                Some(TutorialPhase::ParryOne)
            } else {
                Some(TutorialPhase::End)
            },
            TutorialPhase::ParryOne => Some(TutorialPhase::ParryMultiple),
            TutorialPhase::ParryMultiple => Some(TutorialPhase::End),
            TutorialPhase::End => None,
        },
{
    match phase {
        TutorialPhase::SpawningAttractor => Some(TutorialPhase::SpawningSelene),
        TutorialPhase::SpawningSelene => Some(TutorialPhase::Align),
        TutorialPhase::Align => Some(TutorialPhase::Launch),
        TutorialPhase::Launch => match launch {
            TutorialLaunch::Normal => Some(TutorialPhase::ParryOne),
            TutorialLaunch::Special => Some(TutorialPhase::End),
        },
        TutorialPhase::ParryOne => Some(TutorialPhase::ParryMultiple),
        TutorialPhase::ParryMultiple => Some(TutorialPhase::End),
        TutorialPhase::End => None,
    }
}

/// The hovering tutorial: how long Selene has stayed on the hover target, and whether she is
/// on it.
#[derive(Debug, Clone, Copy, PartialEq, Eq, Structural, Default)]
pub struct TutorialAlign {
    pub time: Duration,
    pub within: bool,
}

/// What a frame of the hovering tutorial shows: whether the tutorial is finished, and whether
/// the progress arc is lit (some time was gained).
#[derive(Debug, Clone, Copy, PartialEq, Eq, Structural)]
pub struct AlignProgress {
    pub done: bool,
    pub lit: bool,
}

/// One frame of the hovering tutorial, `delta` long: time is gained while Selene is on the
/// target (up to the full duration) and lost otherwise (down to zero); reaching the full
/// duration finishes the tutorial.
pub fn update_align_time(align: &mut TutorialAlign, delta: Duration) -> (p: AlignProgress)
    requires
        old(align).time <= TUTORIAL_MOVE_ALIGN_DURATION,
    ensures
        final(align).within == old(align).within,
        final(align).time == (if old(align).within {
            if old(align).time + delta < TUTORIAL_MOVE_ALIGN_DURATION {
                old(align).time + delta
            } else {
                TUTORIAL_MOVE_ALIGN_DURATION as int
            }
        } else {
            if old(align).time >= delta {
                old(align).time - delta
            } else {
                0
            }
        }),
        final(align).time <= TUTORIAL_MOVE_ALIGN_DURATION,
        p.done == (final(align).time == TUTORIAL_MOVE_ALIGN_DURATION),
        p.lit == (final(align).time > 0),
{
    if align.within {
        align.time = if delta < TUTORIAL_MOVE_ALIGN_DURATION - align.time {
            align.time + delta
        } else {
            TUTORIAL_MOVE_ALIGN_DURATION
        };
    } else {
        align.time = if align.time >= delta {
            align.time - delta
        } else {
            0
        };
    }
    AlignProgress { done: align.time == TUTORIAL_MOVE_ALIGN_DURATION, lit: align.time > 0 }
}

/// Something started touching the hover target: Selene is on it if it is her.
pub fn on_align_collision_start(align: &mut TutorialAlign, is_selene: bool)
    ensures
        final(align).time == old(align).time,
        final(align).within == (old(align).within || is_selene),
{
    if is_selene {
        align.within = true;
    }
}

/// Something stopped touching the hover target. When it is Selene leaving after staying at
/// least the hint time, and the hint was never given and its interface exists, the hint about
/// accelerating is to be shown (and is then marked as given). Returns whether to show it.
pub fn on_align_collision_end(align: &mut TutorialAlign, hinted: &mut bool, is_selene: bool, hint_ui_exists: bool) -> (show: bool)
    ensures
        final(align).time == old(align).time,
        final(align).within == (old(align).within && !is_selene),
        *final(hinted) == (*old(hinted) || (is_selene && old(align).within && old(align).time >= TUTORIAL_MOVE_ALIGN_HELP)),
        show == (is_selene && old(align).within && old(align).time >= TUTORIAL_MOVE_ALIGN_HELP && !*old(hinted)
            && hint_ui_exists),
{
    if !is_selene {
        return false;
    }
    let was_within = align.within;
    align.within = false;
    if !was_within || align.time < TUTORIAL_MOVE_ALIGN_HELP {
        return false;
    }
    let was_hinted = *hinted;
    *hinted = true;
    !was_hinted && hint_ui_exists
}

/// Shows the hint interface `hint` in place of the shown one; returns the one to fade out.
pub fn show_hint(ui: &mut SeleneUi, hint: Entity) -> (previous: Option<Entity>)
    ensures
        *final(ui) == SeleneUi(Some(hint)),
        previous == old(ui).0,
{
    let previous = ui.0;
    ui.0 = Some(hint);
    previous
}

/// Selene was killed: the shown interface (when it still exists) is hidden and remembered to
/// come back on respawn. Returns it.
pub fn on_selene_killed(ui: &mut SeleneUi, exists: bool) -> (hidden: Option<Entity>)
    ensures
        *final(ui) == SeleneUi(None),
        hidden == (if exists { old(ui).0 } else { None }),
{
    let taken = ui.0;
    ui.0 = None;
    if exists {
        taken
    } else {
        None
    }
}

/// Selene respawned: the interface hidden at her death comes back (when it still exists), unless
/// another one is shown meanwhile. Returns whether it is shown again.
pub fn on_selene_respawned(ui: &mut SeleneUi, hidden: Entity, exists: bool) -> (shown: bool)
    ensures
        shown == (old(ui).0 is None && exists),
        *final(ui) == (if shown { SeleneUi(Some(hidden)) } else { *old(ui) }),
{
    if ui.0.is_none() && exists {
        ui.0 = Some(hidden);
        true
    } else {
        false
    }
}

/// Hides the hint interface `hint` if it is the one shown: returns it (to fade out) and shows
/// none; another shown interface stays.
pub fn hide_hint(ui: &mut SeleneUi, hint: Entity) -> (hidden: Option<Entity>)
    ensures
        old(ui).0 == Some(hint) ==> *final(ui) == SeleneUi(None) && hidden == Some(hint),
        old(ui).0 != Some(hint) ==> *final(ui) == *old(ui) && hidden is None,
{
    match ui.0 {
        Some(shown) => if shown == hint {
            ui.0 = None;
            Some(hint)
        } else {
            None
        },
        None => None,
    }
}

// ---------------------------------------------------------------------------------------------
// The launching tutorial
// ---------------------------------------------------------------------------------------------
/// How many bullets the attractor fires back when Selene first launches at it.
pub const LAUNCH_BULLET_COUNT: usize = 5;

/// When each bullet of the launching tutorial is fired: 150, 200, 250, 300 and 350
/// milliseconds after the attractor is hit.
pub fn launch_bullet_delay(i: u64) -> (d: Duration)
    requires
        i < LAUNCH_BULLET_COUNT,
    ensures
        d == (100 + (i + 1) * 50) * 1_000_000,
{
    ((100 + (i + 1) * 50) as u128) * 1_000_000
}

/// Whether a bullet of the launching tutorial, fired while the tutorial went as `launch`, homes
/// in on Selene: only while no bullet got past her.
pub fn launch_bullet_homes(launch: TutorialLaunch) -> (b: bool)
    ensures
        b == (launch == TutorialLaunch::Special),
{
    match launch {
        TutorialLaunch::Special => true,
        TutorialLaunch::Normal => false,
    }
}

/// The bullets of the launching tutorial being watched: how the tutorial goes, and how many of
/// the bullets were killed so far.
#[derive(Debug, Clone, Copy, PartialEq, Eq, Structural)]
pub struct LaunchWatch {
    pub outcome: TutorialLaunch,
    pub killed: usize,
}

/// What a bullet of the launching tutorial being killed leads to: whether the other bullets
/// stop homing in, and whether all bullets are done (the watch ends).
#[derive(Debug, Clone, Copy, PartialEq, Eq, Structural)]
pub struct LaunchBulletKilled {
    pub stop_homing: bool,
    pub done: bool,
}

/// How the launching tutorial goes after its bullets were killed by `killers` in turn, from
/// `outcome`: a bullet killed by anyone but Selene (she only kills what she parries) makes it
/// `Normal`.
pub open spec fn launch_outcome(outcome: TutorialLaunch, killers: Seq<Entity>, selene: Entity) -> TutorialLaunch
    decreases killers.len(),
{
    if killers.len() == 0 {
        outcome
    } else {
        let before = launch_outcome(outcome, killers.drop_last(), selene);
        if killers.last() != selene {
            TutorialLaunch::Normal
        } else {
            before
        }
    }
}

impl LaunchWatch {
    /// The watch as the launch starts: `Special`, no bullet killed.
    pub fn new() -> (w: LaunchWatch)
        ensures
            w == (LaunchWatch { outcome: TutorialLaunch::Special, killed: 0 }),
    {
        LaunchWatch { outcome: TutorialLaunch::Special, killed: 0 }
    }

    /// A watched bullet was killed by `by`: unless Selene parried it, the outcome becomes
    /// `Normal` and the bullets stop homing in; the watch ends with the last bullet.
    pub fn on_bullet_killed(&mut self, by: Entity, selene: Entity) -> (r: LaunchBulletKilled)
        requires
            old(self).killed < LAUNCH_BULLET_COUNT,
        ensures
            final(self).outcome == launch_outcome(old(self).outcome, seq![by], selene),
            final(self).killed == old(self).killed + 1,
            r.stop_homing == (by != selene),
            r.done == (final(self).killed == LAUNCH_BULLET_COUNT),
    {
        let stop_homing = by != selene;
        if stop_homing {
            self.outcome = TutorialLaunch::Normal;
        }
        self.killed = self.killed + 1;
        proof {
            assert(seq![by].drop_last() =~= Seq::<Entity>::empty());
            assert(launch_outcome(old(self).outcome, Seq::<Entity>::empty(), selene) == old(self).outcome);
        }
        LaunchBulletKilled { stop_homing, done: self.killed == LAUNCH_BULLET_COUNT }
    }
}

/// The launching tutorial ends `Special` exactly when Selene killed every bullet, that is,
/// when she parried them all: a run of kills leaves the outcome `Special` if and only if it
/// started `Special` and every killer was Selene.
pub proof fn law_special_launch_only_when_all_parried(outcome: TutorialLaunch, killers: Seq<Entity>, selene: Entity)
    ensures
        (launch_outcome(outcome, killers, selene) == TutorialLaunch::Special) == (outcome == TutorialLaunch::Special
            && forall|k: int| 0 <= k < killers.len() ==> killers[k] == selene),
    decreases killers.len(),
{
    if killers.len() > 0 {
        law_special_launch_only_when_all_parried(outcome, killers.drop_last(), selene);
        let init = killers.drop_last();
        assert forall|k: int| 0 <= k < init.len() implies init[k] == killers[k] by {}
        if killers.last() == selene {
            assert((forall|k: int| 0 <= k < killers.len() ==> killers[k] == selene) == (forall|k: int|
                0 <= k < init.len() ==> init[k] == selene)) by {
                if forall|k: int| 0 <= k < init.len() ==> init[k] == selene {
                    assert forall|k: int| 0 <= k < killers.len() implies killers[k] == selene by {
                        if k < init.len() {
                            assert(init[k] == selene);
                        }
                    }
                }
            }
        }
    }
}

// ---------------------------------------------------------------------------------------------
// The parrying tutorial
// ---------------------------------------------------------------------------------------------
/// How the parrying tutorial starts after the launching one: its opening dialog (`normal` or
/// `special`), and whether its lessons are skipped (on the `Special` outcome).
#[derive(Debug, Clone, Copy, PartialEq, Eq, Structural)]
pub struct ParryEntry {
    pub special_dialog: bool,
    pub skip: bool,
}

/// How the parrying tutorial starts after the launching one went as `launch`.
pub fn parry_entry(launch: TutorialLaunch) -> (e: ParryEntry)
    ensures
        e.special_dialog == (launch == TutorialLaunch::Special),
        e.skip == (launch == TutorialLaunch::Special),
{
    let special = launch_bullet_homes(launch);
    ParryEntry { special_dialog: special, skip: special }
}

/// What follows a bullet of a parrying lesson being killed.
#[derive(Debug, Clone, Copy, PartialEq, Eq, Structural)]
pub enum ParryStep {
    /// The lesson was passed.
    Success,
    /// Show the failure dialog `dialog` (of the lesson's dialogs), then fire round `next`.
    RetryAfterDialog { dialog: u32, next: u32 },
    /// Fire round `next` again after a second, with no dialog.
    Retry { next: u32 },
}

/// The first lesson: round `fired` (counting from 1) of a single bullet ended with the bullet
/// killed by `by`. Parried by Selene, the lesson is passed. A bullet that destroyed itself
/// (on hitting something) in one of the first two rounds brings that round's failure dialog,
/// then the next round; any other end repeats the round.
pub fn parry_one_killed(fired: u32, by: Entity, bullet: Entity, selene: Entity) -> (s: ParryStep)
    requires
        fired < u32::MAX,
    ensures
        s == (if by == selene {
            ParryStep::Success
        } else if 1 <= fired <= 2 && by == bullet {
            ParryStep::RetryAfterDialog { dialog: fired, next: (fired + 1) as u32 }
        } else {
            ParryStep::Retry { next: fired }
        }),
{
    if by == selene {
        ParryStep::Success
    } else if 1 <= fired && fired <= 2 && by == bullet {
        ParryStep::RetryAfterDialog { dialog: fired, next: fired + 1 }
    } else {
        ParryStep::Retry { next: fired }
    }
}

/// How many bullets a round of the second lesson fires.
pub const PARRY_MULTIPLE_BULLETS: usize = 3;

/// When the charge of bullet `i` of a round of the second lesson starts: 250 milliseconds
/// apart, the first at once.
pub fn parry_multiple_charge_delay(i: u64) -> (d: Duration)
    requires
        i < PARRY_MULTIPLE_BULLETS,
    ensures
        d == i * 250_000_000,
{
    (i as u128) * 250_000_000
}

/// What a bullet of a round of the second lesson being killed does to the round.
#[derive(Debug, Clone, Copy, PartialEq, Eq, Structural)]
pub enum MultipleKilled {
    /// Selene parried it; `all` tells whether that was the round's last bullet (the round ends).
    Parried { all: bool },
    /// It got past her: the round's bullets are removed, which ends the round.
    Failed,
}

/// A bullet of a round of the second lesson was killed by `by`, `parried` bullets of the round
/// having been parried before.
pub fn parry_multiple_killed(parried: &mut usize, by: Entity, selene: Entity) -> (k: MultipleKilled)
    requires
        *old(parried) < PARRY_MULTIPLE_BULLETS,
    ensures
        by == selene ==> *final(parried) == *old(parried) + 1 && k == (MultipleKilled::Parried {
            all: *final(parried) == PARRY_MULTIPLE_BULLETS,
        }),
        by != selene ==> *final(parried) == *old(parried) && k == (MultipleKilled::Failed),
{
    if by == selene {
        *parried = *parried + 1;
        MultipleKilled::Parried { all: *parried == PARRY_MULTIPLE_BULLETS }
    } else {
        MultipleKilled::Failed
    }
}

/// The second lesson: round `fired` (counting from 1) ended with `parried` of its bullets
/// parried. All parried passes the lesson. Otherwise the first failure brings the first
/// failure dialogs (three of them) and the second failure the second dialog, each followed by
/// the next round; later failures repeat the round.
pub fn parry_multiple_round_end(fired: u32, parried: usize) -> (s: ParryStep)
    requires
        fired < u32::MAX,
    ensures
        s == (if parried == PARRY_MULTIPLE_BULLETS {
            ParryStep::Success
        } else if fired == 1 {
            ParryStep::RetryAfterDialog { dialog: 1, next: 2 }
        } else if fired == 2 {
            ParryStep::RetryAfterDialog { dialog: 2, next: 3 }
        } else {
            ParryStep::Retry { next: fired }
        }),
{
    if parried == PARRY_MULTIPLE_BULLETS {
        ParryStep::Success
    } else if fired == 1 {
        ParryStep::RetryAfterDialog { dialog: 1, next: 2 }
    } else if fired == 2 {
        ParryStep::RetryAfterDialog { dialog: 2, next: 3 }
    } else {
        ParryStep::Retry { next: fired }
    }
}

/// Whether a hurt on Selene by `by` is stopped during a parrying round whose bullets are
/// `bullets`: the lesson's bullets never hurt her.
pub fn parry_ignores_hurt(by: Entity, bullets: &Vec<Entity>) -> (stop: bool)
    ensures
        stop == bullets@.contains(by),
{
    let mut i: usize = 0;
    while i < bullets.len()
        invariant
            i <= bullets@.len(),
            forall|k: int| 0 <= k < i ==> bullets@[k] != by,
        decreases bullets.len() - i,
    {
        if bullets[i] == by {
            proof {
                assert(bullets@[i as int] == by);
            }
            return true;
        }
        i = i + 1;
    }
    false
}

} // verus!
