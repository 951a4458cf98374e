use vstd::prelude::*;

use crate::entity::Entity;
use crate::logic::entities::penumbra::launchable::TryLaunch;
use crate::logic::entities::TryHurt;

verus! {

/// A thorn (a pillar or a ring) on the way of a launch: unless the thorn launches itself, the
/// launch stops and the launcher is hurt by 1 on the thorn's behalf. Returns the entity to hurt
/// and the request.
pub fn thorn_on_try_launch<H: Copy>(launch: &mut TryLaunch<H>, thorn: Entity) -> (hurt: Option<(Entity, TryHurt)>)
    ensures
        old(launch).spec_by() == thorn ==> *final(launch) == *old(launch) && hurt is None,
        old(launch).spec_by() != thorn ==> {
            &&& final(launch).is_stopped()
            &&& final(launch).spec_by() == old(launch).spec_by()
            &&& final(launch).targets() == old(launch).targets()
            &&& final(launch).spec_triggered() == old(launch).spec_triggered()
            &&& final(launch).spec_at() == old(launch).spec_at()
            &&& final(launch).spec_index() == old(launch).spec_index()
            &&& final(launch).spec_current_hit() == old(launch).spec_current_hit()
            &&& hurt matches Some((e, t)) && e == old(launch).spec_by() && t.spec_by() == thorn && t.spec_amount()
                == 1 && !t.is_stopped()
        },
{
    let by = launch.by_entity();
    if by != thorn {
        launch.stop();
        Some((by, TryHurt::by_entity(thorn, 1)))
    } else {
        None
    }
}

} // verus!
