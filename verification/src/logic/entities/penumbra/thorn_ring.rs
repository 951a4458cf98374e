use vstd::prelude::*;

use crate::entity::Entity;
use crate::logic::entities::TryHurt;

verus! {

/// A body touching a thorn ring: it is hurt by `0x7fff_ffff`, enough to kill it, on the ring's
/// behalf. A contact with no body hurts nothing. (A launch through the ring is refused as for
/// any thorn, see `thorn_on_try_launch`.)
pub fn thorn_ring_on_collision(ring: Entity, body: Option<Entity>) -> (hurt: Option<(Entity, TryHurt)>)
    ensures
        match body {
            Some(b) => hurt matches Some((e, t)) && e == b && t.spec_by() == ring && t.spec_amount() == 0x7fff_ffff
                && !t.is_stopped(),
            None => hurt is None,
        },
{
    match body {
        Some(b) => Some((b, TryHurt::by_entity(ring, 0x7fff_ffff))),
        None => None,
    }
}

} // verus!
