use vstd::prelude::*;

use crate::entity::{Entity, PLACEHOLDER_BITS};

pub mod penumbra;

verus! {

// ---------------------------------------------------------------------------------------------
// Health
// ---------------------------------------------------------------------------------------------
/// Hit points of an entity; it dies when they reach zero.
#[derive(Debug, Clone, Copy, PartialEq, Eq, Structural)]
pub struct Health(pub u32);

/// The largest value that [`Health`] may reach when healing.
#[derive(Debug, Clone, Copy, PartialEq, Eq, Structural)]
pub struct MaxHealth(pub u32);

/// `x` clamped to the range of `u32`.
pub open spec fn saturate_u32(x: int) -> int {
    if x < 0 {
        0
    } else if x > u32::MAX {
        u32::MAX as int
    } else {
        x
    }
}

/// Health after a change by `delta` bounded by `max`: a living entity's health moves by
/// `delta` (saturating at the bounds of `u32`) and is then capped by `max`; a dead entity's
/// health stays zero.
pub open spec fn changed_health(h: u32, delta: int, max: Option<MaxHealth>) -> u32 {
    if h > 0 {
        let cap: int = match max {
            Some(m) => m.0 as int,
            None => u32::MAX as int,
        };
        let v = saturate_u32(h + delta);
        (if v < cap {
            v
        } else {
            cap
        }) as u32
    } else {
        h
    }
}

/// The change of health that hurting by `amount` makes: `-amount` read as a 32-bit signed
/// number (an amount above `i32::MAX` wraps around and heals).
pub open spec fn hurt_delta(amount: u32) -> int {
    if amount <= i32::MAX {
        -(amount as int)
    } else {
        0x1_0000_0000 - amount
    }
}

impl Health {
    /// Health of `amount`, at least one.
    pub fn new(amount: u32) -> (h: Health)
        ensures
            h.0 == (if amount == 0 {
                1
            } else {
                amount
            }),
    {
        Health(if amount < 1 {
            1
        } else {
            amount
        })
    }

    /// Hurts by `amount`; returns whether this killed the entity.
    pub fn hurt(&mut self, amount: u32) -> (killed: bool)
        requires
            amount != 0x8000_0000,
        ensures
            final(self).0 == changed_health(old(self).0, hurt_delta(amount), None),
            killed == (old(self).0 > 0 && final(self).0 == 0),
    {
        let delta: i32 = if amount <= 0x7FFF_FFFF {
            -(amount as i32)
        } else {
            (0x1_0000_0000u64 - amount as u64) as i32
        };
        self.change(delta, None)
    }

    /// Changes health by `delta`, capped by `max`; returns whether this killed the entity.
    /// A dead entity stays dead.
    pub fn change(&mut self, delta: i32, max: Option<MaxHealth>) -> (killed: bool)
        ensures
            final(self).0 == changed_health(old(self).0, delta as int, max),
            killed == (old(self).0 > 0 && final(self).0 == 0),
    {
        if self.0 > 0 {
            let sum: i64 = self.0 as i64 + delta as i64;
            let v: u32 = if sum < 0 {
                0
            } else if sum > 0xFFFF_FFFF {
                0xFFFF_FFFF
            } else {
                sum as u32
            };
            let cap: u32 = match max {
                Some(m) => m.0,
                None => 0xFFFF_FFFF,
            };
            self.0 = if v < cap {
                v
            } else {
                cap
            };
            self.0 == 0
        } else {
            false
        }
    }
}

impl MaxHealth {
    /// Maximum health of `amount`, at least one.
    pub fn new(amount: u32) -> (h: MaxHealth)
        ensures
            h.0 == (if amount == 0 {
                1
            } else {
                amount
            }),
    {
        MaxHealth(if amount < 1 {
            1
        } else {
            amount
        })
    }
}

/// Hurting by at least the current health (and at most `i32::MAX`) kills a living entity.
pub proof fn law_hurt_by_health_kills(h: Health, amount: u32)
    requires
        h.0 > 0,
        h.0 <= amount <= i32::MAX,
    ensures
        changed_health(h.0, hurt_delta(amount), None) == 0,
{
}

/// Hurting never raises health, as long as the amount is at most `i32::MAX`.
pub proof fn law_hurt_never_heals(h: Health, amount: u32)
    requires
        amount <= i32::MAX,
    ensures
        changed_health(h.0, hurt_delta(amount), None) <= h.0,
{
}

/// A change bounded by a maximum never leaves a living entity above that maximum.
pub proof fn law_change_respects_max(h: Health, delta: int, max: MaxHealth)
    requires
        h.0 > 0,
    ensures
        changed_health(h.0, delta, Some(max)) <= max.0,
{
}

/// The dead stay dead: no change revives an entity at zero health.
pub proof fn law_dead_stays_dead(delta: int, max: Option<MaxHealth>)
    ensures
        changed_health(0, delta, max) == 0,
{
}

// ---------------------------------------------------------------------------------------------
// Hurting events
// ---------------------------------------------------------------------------------------------
/// A request to hurt an entity, which observers may stop before it takes effect.
#[derive(Debug, Clone, Copy, PartialEq, Eq, Structural)]
pub struct TryHurt {
    pub by: Entity,
    pub amount: u32,
    pub stopped: bool,
}

/// An entity was hurt.
#[derive(Debug, Clone, Copy, PartialEq, Eq, Structural)]
pub struct Hurt {
    pub by: Entity,
    pub amount: u32,
}

/// An entity was killed.
#[derive(Debug, Clone, Copy, PartialEq, Eq, Structural)]
pub struct Killed {
    pub by: Entity,
}

/// Marks an entity that is not despawned when killed.
#[derive(Debug, Clone, Copy, PartialEq, Eq, Structural, Default)]
pub struct NoKillDespawn;

/// What a hurting request does to an entity.
#[derive(Debug, Clone, Copy, PartialEq, Eq, Structural)]
pub struct HurtOutcome {
    /// The entity's new health, if it has health at all.
    pub health: Option<Health>,
    /// The event to send about the entity being hurt.
    pub hurt: Option<Hurt>,
    /// The event to send about the entity being killed.
    pub killed: Option<Killed>,
    /// Whether to despawn the entity.
    pub despawn: bool,
}

impl TryHurt {
    pub open spec fn is_stopped(self) -> bool {
        self.stopped
    }

    /// On whose behalf the request hurts.
    pub open spec fn spec_by(self) -> Entity {
        self.by
    }

    /// How much the request hurts.
    pub open spec fn spec_amount(self) -> u32 {
        self.amount
    }

    /// A request to hurt by `amount`, on behalf of no particular entity.
    pub fn new(amount: u32) -> (t: TryHurt)
        ensures
            t.spec_by().0 == PLACEHOLDER_BITS,
            t.spec_amount() == amount,
            !t.is_stopped(),
    {
        Self::by_entity(Entity::placeholder(), amount)
    }

    /// A request to hurt by `amount`, on behalf of `by`.
    pub fn by_entity(by: Entity, amount: u32) -> (t: TryHurt)
        ensures
            t.spec_by() == by,
            t.spec_amount() == amount,
            !t.is_stopped(),
    {
        TryHurt { by, amount, stopped: false }
    }

    /// Stops the request: it will have no effect.
    pub fn stop(&mut self)
        ensures
            final(self).is_stopped(),
            final(self).spec_by() == old(self).spec_by(),
            final(self).spec_amount() == old(self).spec_amount(),
    {
        self.stopped = true;
    }

    /// What the request does, once its observers have run, to an entity with `health` (if it
    /// has any) that is or is not marked [`NoKillDespawn`]: nothing if it was stopped or the
    /// entity has no health; otherwise the entity is hurt, and if that kills it, it is also
    /// reported killed and, unless marked, despawned.
    pub fn resolve(&self, health: Option<Health>, no_kill_despawn: bool) -> (o: HurtOutcome)
        requires
            !self.is_stopped() && health is Some ==> self.spec_amount() != 0x8000_0000,
        ensures
            (self.is_stopped() || health is None) ==> o == (HurtOutcome {
                health: health,
                hurt: None,
                killed: None,
                despawn: false,
            }),
            (!self.is_stopped() && health is Some) ==> {
                let before = match health {
                    Some(h) => h.0,
                    None => 0,
                };
                let after = changed_health(before, hurt_delta(self.spec_amount()), None);
                let dies = before > 0 && after == 0;
                &&& o.health == Some(Health(after))
                &&& o.hurt == Some(Hurt { by: self.spec_by(), amount: self.spec_amount() })
                &&& o.killed == (if dies {
                    Some(Killed { by: self.spec_by() })
                } else {
                    None
                })
                &&& o.despawn == (dies && !no_kill_despawn)
            },
    {
        if self.stopped {
            return HurtOutcome { health, hurt: None, killed: None, despawn: false };
        }
        match health {
            None => HurtOutcome { health, hurt: None, killed: None, despawn: false },
            Some(h) => {
                let mut h = h;
                let should_kill = h.hurt(self.amount);
                let hurt = Some(Hurt::by_entity(self.by, self.amount));
                if should_kill {
                    HurtOutcome {
                        health: Some(h),
                        hurt,
                        killed: Some(Killed::by_entity(self.by)),
                        despawn: !no_kill_despawn,
                    }
                } else {
                    HurtOutcome { health: Some(h), hurt, killed: None, despawn: false }
                }
            },
        }
    }
}

impl Hurt {
    /// A report of being hurt by `amount`, on behalf of no particular entity.
    pub fn new(amount: u32) -> (h: Hurt)
        ensures
            h.by.0 == PLACEHOLDER_BITS,
            h.amount == amount,
    {
        Self::by_entity(Entity::placeholder(), amount)
    }

    /// A report of being hurt by `amount`, on behalf of `by`.
    pub fn by_entity(by: Entity, amount: u32) -> (h: Hurt)
        ensures
            h.by == by,
            h.amount == amount,
    {
        Hurt { by, amount }
    }
}

impl Killed {
    /// A report of being killed, on behalf of no particular entity.
    pub fn new() -> (k: Killed)
        ensures
            k.by.0 == PLACEHOLDER_BITS,
    {
        Self::by_entity(Entity::placeholder())
    }

    /// A report of being killed on behalf of `by`.
    pub fn by_entity(by: Entity) -> (k: Killed)
        ensures
            k.by == by,
    {
        Killed { by }
    }
}

// ---------------------------------------------------------------------------------------------
// Collision layers
// ---------------------------------------------------------------------------------------------
/// Which collision layers an entity belongs to, and which layers it interacts with, as bit
/// masks (one bit per layer).
#[derive(Debug, Clone, Copy, PartialEq, Eq, Structural)]
pub struct CollisionLayers {
    pub memberships: u32,
    pub filters: u32,
}

impl CollisionLayers {
    /// Membership of the first layer, interacting with all layers.
    pub fn default_layers() -> (l: CollisionLayers)
        ensures
            l.memberships == 1,
            l.filters == u32::MAX,
    {
        CollisionLayers { memberships: 1, filters: 0xFFFF_FFFF }
    }

    /// Whether `other`'s filters let it interact with this one's memberships.
    pub fn filtered_by(&self, other: &CollisionLayers) -> (b: bool)
        ensures
            b == (other.filters & self.memberships != 0),
    {
        other.filters & self.memberships != 0
    }
}

/// The collision layers of the game's entities.
#[derive(Debug, Clone, Copy, PartialEq, Eq, Structural, Default)]
pub enum EntityLayers {
    #[default]
    NoneLayer,
    PenumbraSelene,
    PenumbraHostile,
}

impl EntityLayers {
    pub open spec fn spec_bits(self) -> u32 {
        match self {
            EntityLayers::NoneLayer => 1,
            EntityLayers::PenumbraSelene => 2,
            EntityLayers::PenumbraHostile => 4,
        }
    }

    /// The bit of this layer: one bit per layer, in declaration order.
    pub fn to_bits(self) -> (b: u32)
        ensures
            b == self.spec_bits(),
    {
        match self {
            EntityLayers::NoneLayer => 1,
            EntityLayers::PenumbraSelene => 2,
            EntityLayers::PenumbraHostile => 4,
        }
    }

    /// Selene's layers: a member of her own layer, interacting with hostiles.
    pub fn penumbra_selene() -> (l: CollisionLayers)
        ensures
            l.memberships == EntityLayers::PenumbraSelene.spec_bits(),
            l.filters == EntityLayers::PenumbraHostile.spec_bits(),
    {
        CollisionLayers {
            memberships: EntityLayers::PenumbraSelene.to_bits(),
            filters: EntityLayers::PenumbraHostile.to_bits(),
        }
    }

    /// Hostiles' layers: a member of the hostile layer, interacting with Selene.
    pub fn penumbra_hostile() -> (l: CollisionLayers)
        ensures
            l.memberships == EntityLayers::PenumbraHostile.spec_bits(),
            l.filters == EntityLayers::PenumbraSelene.spec_bits(),
    {
        CollisionLayers {
            memberships: EntityLayers::PenumbraHostile.to_bits(),
            filters: EntityLayers::PenumbraSelene.to_bits(),
        }
    }
}

/// Selene and hostiles interact with each other, in both directions.
pub proof fn law_selene_and_hostiles_interact()
    ensures
        ({
            let s = CollisionLayers { memberships: 2, filters: 4 };
            let h = CollisionLayers { memberships: 4, filters: 2 };
            &&& h.filters & s.memberships != 0
            &&& s.filters & h.memberships != 0
            &&& s.filters & s.memberships == 0
        }),
{
    assert(2u32 & 2u32 != 0) by (bit_vector);
    assert(4u32 & 4u32 != 0) by (bit_vector);
    assert(4u32 & 2u32 == 0) by (bit_vector);
}

} // verus!
