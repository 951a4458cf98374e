use vstd::prelude::*;

use crate::entity::Entity;
use crate::logic::entities::penumbra::launchable::{
    launch_damage, LaunchCharging, LaunchCooldown, LaunchDurations, Launched,
};
use crate::logic::entities::{Health, MaxHealth, TryHurt};
use crate::logic::level::{FieldError, Fields, LdtkEntityField};
use crate::logic::timed::{TimeStun, Timed};
use crate::time::Duration;

verus! {

/// The disc that shows the charging of Selene's launch.
#[derive(Debug, Clone, Copy, PartialEq, Eq, Structural, Default)]
pub struct LaunchDisc;

/// The effect of Selene being hurt.
#[derive(Debug, Clone, Copy, PartialEq, Eq, Structural, Default)]
pub struct HurtEffect;

/// The effect of Selene slashing an attractor.
#[derive(Debug, Clone, Copy, PartialEq, Eq, Structural, Default)]
pub struct SlashEffect;

/// Selene, as she is in the penumbra.
#[derive(Debug, Clone, Copy, PartialEq, Eq, Structural, Default)]
pub struct SelenePenumbra;

/// Which way round an attracted body starts orbiting.
#[derive(Debug, Clone, Copy, PartialEq, Eq, Structural, Default)]
pub struct AttractedInitial {
    pub ccw: bool,
}

/// What Selene in the penumbra starts with: three launch stages of 250, 500 and 750
/// milliseconds, a second of cooldown between launches, and 10 health out of 10.
pub struct SelenePenumbraStats {
    pub launch_durations: LaunchDurations,
    pub launch_cooldown: LaunchCooldown,
    pub health: Health,
    pub max_health: MaxHealth,
}

impl SelenePenumbra {
    /// What Selene in the penumbra starts with.
    pub fn stats() -> (s: SelenePenumbraStats)
        ensures
            s.launch_durations.0@ == seq![250_000_000u128, 500_000_000u128, 750_000_000u128],
            s.launch_cooldown.0 == 1_000_000_000,
            s.health.0 == 10,
            s.max_health.0 == 10,
    {
        let mut durations: Vec<Duration> = Vec::new();
        durations.push(250_000_000);
        durations.push(500_000_000);
        durations.push(750_000_000);
        proof {
            assert(durations@ =~= seq![250_000_000u128, 500_000_000u128, 750_000_000u128]);
        }
        SelenePenumbraStats {
            launch_durations: LaunchDurations(durations),
            launch_cooldown: LaunchCooldown(1_000_000_000),
            health: Health::new(10),
            max_health: MaxHealth::new(10),
        }
    }

    /// Selene placed in a level: she starts orbiting counterclockwise when her `ccw` field says
    /// so; an error when the field is missing or no boolean.
    pub fn from_level_entity(fields: &Fields) -> (r: Result<AttractedInitial, FieldError>)
        ensures
            r == (if !fields.spec_map().contains_key(seq!['c', 'c', 'w']) {
                Err(FieldError::NotFound)
            } else {
                match fields.spec_map()[seq!['c', 'c', 'w']] {
                    LdtkEntityField::Bool(v) => Ok(AttractedInitial { ccw: v }),
                    _ => Err(FieldError::WrongType),
                }
            }),
    {
        proof {
            reveal_strlit("ccw");
            assert("ccw"@ =~= seq!['c', 'c', 'w']);
        }
        match fields.bool("ccw") {
            Ok(ccw) => Ok(AttractedInitial { ccw }),
            Err(e) => Err(e),
        }
    }
}

/// What Selene being hurt starts: a short stun of time, and a hurt effect of 300 milliseconds.
pub fn on_selene_hurt() -> (r: (TimeStun, Timed))
    ensures
        r.0.spec_kind() == crate::logic::timed::TimeStunKind::ShortInstant,
        r.0.spec_started() == 0,
        r.1.spec_lifetime() == 300_000_000,
        r.1.spec_life() == 0,
{
    (TimeStun::short_instant(), Timed::new(300_000_000))
}

/// What Selene launching at an attractor does: the attractor is hurt by her (1, 4 or 8 for the
/// first three stages; nothing for another stage), and a slash effect of 336 milliseconds
/// plays.
pub fn on_selene_launched(selene: Entity, launched: Launched) -> (r: (Option<(Entity, TryHurt)>, Timed))
    ensures
        match launch_damage_spec(launched.index) {
            Some(d) => r.0 matches Some((at, t)) && at == launched.at && t.spec_by() == selene && t.spec_amount() == d
                && !t.is_stopped(),
            None => r.0 is None,
        },
        r.1.spec_lifetime() == 336_000_000,
        r.1.spec_life() == 0,
{
    let hurt = match launch_damage(launched.index) {
        Some(d) => Some((launched.at, TryHurt::by_entity(selene, d))),
        None => None,
    };
    (hurt, Timed::new(14 * 24 * 1_000_000))
}

/// The damage of a launch stage: 1, 4 and 8 for the first three.
pub open spec fn launch_damage_spec(index: usize) -> Option<u32> {
    if index == 0 {
        Some(1u32)
    } else if index == 1 {
        Some(4u32)
    } else if index == 2 {
        Some(8u32)
    } else {
        None
    }
}

/// The color of the launch disc: while the first stage charges, a faint blue that grows with the
/// charge; at the second stage orange, at the third pink; nothing at a later stage.
#[derive(Debug, Clone, Copy, PartialEq, Eq, Structural)]
pub enum DiscColor {
    Charging,
    Orange,
    Pink,
    Clear,
}

/// How to draw the launch disc: not at all when no launch is charging at a known stage;
/// otherwise with round caps, a color, a stroke thickness in tenths of a pixel, and an arc that
/// covers the stages done plus the charged part (`time` of `duration`) of the current one, out
/// of `stages`.
#[derive(Debug, Clone, Copy, PartialEq, Eq, Structural)]
pub enum LaunchDiscStyle {
    Hidden,
    Charging {
        color: DiscColor,
        thickness_tenths: u32,
        index: usize,
        stages: usize,
        time: Duration,
        duration: Duration,
    },
}

/// The style of the launch disc for a launch charging (or not) with the given stages.
pub fn draw_selene_launch_disc(charging: Option<LaunchCharging>, durations: &LaunchDurations) -> (s: LaunchDiscStyle)
    ensures
        s == match charging {
            Some(c) => if c.index < durations.0@.len() {
                LaunchDiscStyle::Charging {
                    color: if c.index == 0 {
                        DiscColor::Charging
                    } else if c.index == 1 {
                        DiscColor::Orange
                    } else if c.index == 2 {
                        DiscColor::Pink
                    } else {
                        DiscColor::Clear
                    },
                    thickness_tenths: if c.index == 0 {
                        10u32
                    } else if c.index == 1 {
                        15u32
                    } else if c.index == 2 {
                        20u32
                    } else {
                        0u32
                    },
                    index: c.index,
                    stages: durations.0@.len() as usize,
                    time: c.time,
                    duration: durations.0@[c.index as int],
                }
            } else {
                LaunchDiscStyle::Hidden
            },
            None => LaunchDiscStyle::Hidden,
        },
{
    match charging {
        Some(c) => {
            if c.index < durations.0.len() {
                let (color, thickness_tenths) = if c.index == 0 {
                    (DiscColor::Charging, 10)
                } else if c.index == 1 {
                    (DiscColor::Orange, 15)
                } else if c.index == 2 {
                    (DiscColor::Pink, 20)
                } else {
                    (DiscColor::Clear, 0)
                };
                LaunchDiscStyle::Charging {
                    color,
                    thickness_tenths,
                    index: c.index,
                    stages: durations.0.len(),
                    time: c.time,
                    duration: durations.0[c.index],
                }
            } else {
                LaunchDiscStyle::Hidden
            }
        },
        None => LaunchDiscStyle::Hidden,
    }
}

} // verus!
