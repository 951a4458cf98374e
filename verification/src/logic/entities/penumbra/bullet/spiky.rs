use vstd::prelude::*;

use crate::entity::Entity;
use crate::logic::entities::{CollisionLayers, EntityLayers, Health, TryHurt};
use crate::logic::timed::Timed;
use crate::logic::entities::penumbra::PenumbraEntity;
use crate::logic::entities::penumbra::attractor::NoAttract;
use crate::graphics::animation::AnimationMode;

verus! {

/// The effect of a spiky bullet appearing.
#[derive(Debug, Clone, Copy, PartialEq, Eq, Structural, Default)]
pub struct SpikySpawnEffect;

/// A spiky bullet as it is spawned in a level: hostile to Selene, a collider of radius 6, a
/// lifetime of two seconds (after which it is killed), a homing power of 180 degrees per
/// second, 1 health, the penumbra marker, the marker that attractors do not pull it, and its
/// animation `anim` playing in a loop.
pub struct SpikyBullet {
    pub level_entity: Entity,
    pub layers: CollisionLayers,
    pub collider_radius: u32,
    pub lifetime: Timed,
    pub homing_power_degrees: u32,
    pub health: Health,
    pub penumbra: PenumbraEntity,
    pub no_attract: NoAttract,
    pub animation_key: String,
    pub animation_mode: AnimationMode,
}

/// A spiky bullet in the level `level_entity`.
pub fn spiky(level_entity: Entity) -> (b: SpikyBullet)
    ensures
        b.level_entity == level_entity,
        b.layers.memberships == EntityLayers::PenumbraHostile.spec_bits(),
        b.layers.filters == EntityLayers::PenumbraSelene.spec_bits(),
        b.collider_radius == 6,
        b.lifetime.spec_lifetime() == 2_000_000_000,
        b.lifetime.spec_life() == 0,
        b.homing_power_degrees == 180,
        b.health.0 == 1,
        b.penumbra == PenumbraEntity,
        b.no_attract == NoAttract,
        b.animation_key@ == "anim"@,
        b.animation_mode == AnimationMode::Repeat,
{
    SpikyBullet {
        level_entity,
        layers: EntityLayers::penumbra_hostile(),
        collider_radius: 6,
        lifetime: Timed::new(2_000_000_000),
        homing_power_degrees: 180,
        health: Health::new(1),
        penumbra: PenumbraEntity,
        no_attract: NoAttract,
        animation_key: "anim".to_string(),
        animation_mode: AnimationMode::Repeat,
    }
}

/// The damage a spiky bullet does to itself when it touches something: enough to destroy it.
pub const SELF_DAMAGE: u32 = 0x7fff_ffff;

/// The charging effect of a spiky bullet, half a second long.
#[derive(Debug, Clone, Copy, PartialEq, Eq, Structural, Default)]
pub struct SpikyChargeEffect;

impl SpikyChargeEffect {
    /// The lifetime of the effect: half a second.
    pub fn lifetime() -> (t: Timed)
        ensures
            t.spec_lifetime() == 500_000_000,
            t.spec_life() == 0,
    {
        Timed::new(500_000_000)
    }
}

/// What a spiky bullet touching something does: it hurts the body it touched, if any, by 1,
/// then hurts itself (so that it is destroyed).
pub fn spiky_collision(bullet: Entity, body: Option<Entity>) -> (hurts: Vec<(Entity, TryHurt)>)
    ensures
        hurts@.len() == (if body is Some { 2int } else { 1int }),
        hurts@.last().0 == bullet && hurts@.last().1.spec_by() == bullet && hurts@.last().1.spec_amount() == SELF_DAMAGE
            && !hurts@.last().1.is_stopped(),
        body matches Some(b) ==> hurts@[0].0 == b && hurts@[0].1.spec_by() == bullet && hurts@[0].1.spec_amount() == 1
            && !hurts@[0].1.is_stopped(),
{
    let mut hurts: Vec<(Entity, TryHurt)> = Vec::new();
    match body {
        Some(b) => {
            hurts.push((b, TryHurt::by_entity(bullet, 1)));
        },
        None => {},
    }
    hurts.push((bullet, TryHurt::by_entity(bullet, SELF_DAMAGE)));
    hurts
}

} // verus!
