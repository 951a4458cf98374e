use vstd::prelude::*;

use crate::entity::Entity;
use crate::logic::entities::TryHurt;

verus! {

/// Marks an entity that attractors do not pull.
#[derive(Debug, Clone, Copy, PartialEq, Eq, Structural, Default)]
pub struct NoAttract;

/// A body touching an attractor: while the body still exists, it is hurt by `1_000_000` on the
/// attractor's behalf. A contact with no body, or with a body already gone, hurts nothing.
pub fn attractor_on_collision(attractor: Entity, body: Option<Entity>, body_exists: bool) -> (hurt: Option<(Entity, TryHurt)>)
    ensures
        match body {
            Some(b) if body_exists => hurt matches Some((e, t)) && e == b && t.spec_by() == attractor && t.spec_amount()
                == 1_000_000 && !t.is_stopped(),
            _ => hurt is None,
        },
{
    match body {
        Some(b) => if body_exists {
            Some((b, TryHurt::by_entity(attractor, 1_000_000)))
        } else {
            None
        },
        None => None,
    }
}

} // verus!
