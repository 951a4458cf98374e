use vstd::prelude::*;

use crate::entity::Entity;
use crate::logic::entities::{CollisionLayers, EntityLayers, Health, TryHurt};
use crate::logic::timed::Timed;

verus! {

/// The effect of a spiky bullet appearing.
#[derive(Debug, Clone, Copy, PartialEq, Eq, Structural, Default)]
pub struct SpikySpawnEffect;

/// A spiky bullet as it is spawned in a level: hostile to Selene, a collider of radius 6, a
/// lifetime of two seconds (after which it is killed), a homing power of 180 degrees per
/// second, and 1 health.
pub struct SpikyBullet {
    pub level_entity: Entity,
    pub layers: CollisionLayers,
    pub collider_radius: u32,
    pub lifetime: Timed,
    pub homing_power_degrees: u32,
    pub health: Health,
}

/// A spiky bullet in the level `level_entity`.
pub fn spiky(level_entity: Entity) -> (b: SpikyBullet)
    ensures
        b.level_entity == level_entity,
        b.layers.memberships == EntityLayers::PenumbraHostile.spec_bits(),
        b.layers.filters == EntityLayers::PenumbraSelene.spec_bits(),
        b.collider_radius == 6,
        b.lifetime.spec_lifetime() == 2_000_000_000,
        b.lifetime.spec_life() == 0,
        b.homing_power_degrees == 180,
        b.health.0 == 1,
{
    SpikyBullet {
        level_entity,
        layers: EntityLayers::penumbra_hostile(),
        collider_radius: 6,
        lifetime: Timed::new(2_000_000_000),
        homing_power_degrees: 180,
        health: Health::new(1),
    }
}

/// The damage a spiky bullet does to itself when it touches something: enough to destroy it.
pub const SELF_DAMAGE: u32 = 0x7fff_ffff;

/// What a spiky bullet touching something does: it hurts itself (so that it is destroyed), then
/// hurts the body it touched, if any, by 1.
pub fn spiky_collision(bullet: Entity, body: Option<Entity>) -> (hurts: Vec<(Entity, TryHurt)>)
    ensures
        hurts@.len() == (if body is Some { 2int } else { 1int }),
        hurts@[0].0 == bullet && hurts@[0].1.spec_by() == bullet && hurts@[0].1.spec_amount() == SELF_DAMAGE
            && !hurts@[0].1.is_stopped(),
        body matches Some(b) ==> hurts@[1].0 == b && hurts@[1].1.spec_by() == bullet && hurts@[1].1.spec_amount() == 1
            && !hurts@[1].1.is_stopped(),
{
    let mut hurts: Vec<(Entity, TryHurt)> = Vec::new();
    hurts.push((bullet, TryHurt::by_entity(bullet, SELF_DAMAGE)));
    match body {
        Some(b) => {
            hurts.push((b, TryHurt::by_entity(bullet, 1)));
        },
        None => {},
    }
    hurts
}

} // verus!
