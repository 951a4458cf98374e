use vstd::prelude::*;

use crate::entity::Entity;
use crate::logic::entities::CollisionLayers;
use crate::time::{Duration, DURATION_MAX};

verus! {

/// The input action that launches Selene.
#[derive(Debug, Clone, Copy, PartialEq, Eq, Hash, Structural)]
pub struct LaunchAction;

/// What a launch is aimed at, if anything.
#[derive(Debug, Clone, Copy, PartialEq, Eq, Structural, Default)]
pub struct LaunchTarget(pub Option<Entity>);

/// How long each charging stage of a launch lasts.
#[derive(Debug, Clone, PartialEq, Eq, Default)]
pub struct LaunchDurations(pub Vec<Duration>);

/// How long after an attempt another launch may be charged.
#[derive(Debug, Clone, Copy, PartialEq, Eq, Structural, Default)]
pub struct LaunchCooldown(pub Duration);

/// Not charging a launch; the last attempt was at `last_attempted`.
#[derive(Debug, Clone, Copy, PartialEq, Eq, Structural, Default)]
pub struct LaunchIdle {
    pub last_attempted: Duration,
}

/// Charging stage `index` of a launch, for `time` so far.
#[derive(Debug, Clone, Copy, PartialEq, Eq, Structural, Default)]
pub struct LaunchCharging {
    pub index: usize,
    pub time: Duration,
}

/// A launch was charged up to stage `index` and is ready to go.
#[derive(Debug, Clone, Copy, PartialEq, Eq, Structural, Default)]
pub struct LaunchFinished {
    pub index: usize,
}

/// A launch was stopped by an observer of `stopped_by`.
#[derive(Debug, Clone, Copy, PartialEq, Eq, Structural)]
pub struct LaunchFailed {
    pub stopped_by: Entity,
}

/// A launch was released before its first stage was charged.
#[derive(Debug, Clone, Copy, PartialEq, Eq, Structural)]
pub struct LaunchCancelled;

/// A launch at `at` went through, charged up to stage `index`.
#[derive(Debug, Clone, Copy, PartialEq, Eq, Structural)]
pub struct Launched {
    pub at: Entity,
    pub index: usize,
}

/// Whether an idle launcher starts charging: when the launch action was just pressed, there is
/// a target, and the cooldown since the last attempt (zero if none is set) has passed.
pub fn update_launch_idle(
    just_pressed: bool,
    target: &LaunchTarget,
    idle: &LaunchIdle,
    cooldown: Option<LaunchCooldown>,
    now: Duration,
) -> (r: Option<LaunchCharging>)
    requires
        just_pressed && target.0 is Some ==> idle.last_attempted <= now,
    ensures
        r is Some <==> (just_pressed && target.0 is Some && now - idle.last_attempted >= match cooldown {
            Some(c) => c.0,
            None => 0,
        }),
        r is Some ==> r == Some(LaunchCharging { index: 0, time: 0 }),
{
    if !just_pressed {
        return None;
    }
    let cooldown = match cooldown {
        Some(c) => c.0,
        None => 0,
    };
    if target.0.is_some() && now - idle.last_attempted >= cooldown {
        Some(LaunchCharging { index: 0, time: 0 })
    } else {
        None
    }
}

/// What a charging launcher does in one frame.
#[derive(Debug, Clone, Copy, PartialEq, Eq, Structural)]
pub enum ChargingStep {
    /// Nothing: the stage is not among the durations.
    Unchanged,
    /// Keeps charging, with this progress.
    Continue(LaunchCharging),
    /// Stops charging: the launch is ready.
    Finish(LaunchFinished),
    /// Stops charging before the first stage was reached: back to idle, and the launch is
    /// reported cancelled.
    Cancel(LaunchIdle),
}

/// One frame of charging a launch, `delta` after the last, at time `now`, with the launch
/// action held (`pressed`) or released.
///
/// Released: the launch is ready at the previous stage, or cancelled at the first. Held: the
/// time grows by `delta`; once it reaches the stage's duration, charging moves to the next stage
/// with the time left over, or is ready at the last stage.
pub fn update_launch_charging(
    durations: &LaunchDurations,
    charging: &LaunchCharging,
    pressed: bool,
    now: Duration,
    delta: Duration,
) -> (r: ChargingStep)
    requires
        charging.index < durations.0.len() && pressed ==> charging.time + delta <= DURATION_MAX,
    ensures
        charging.index >= durations.0.len() ==> r == ChargingStep::Unchanged,
        charging.index < durations.0.len() ==> {
            let duration = durations.0@[charging.index as int];
            let time = charging.time + delta;
            &&& !pressed && charging.index > 0 ==> r == ChargingStep::Finish(
                LaunchFinished { index: (charging.index - 1) as usize },
            )
            &&& !pressed && charging.index == 0 ==> r == ChargingStep::Cancel(
                LaunchIdle { last_attempted: now },
            )
            &&& pressed && time < duration ==> r == ChargingStep::Continue(
                LaunchCharging { index: charging.index, time: time as u128 },
            )
            &&& pressed && time >= duration && charging.index + 1 < durations.0.len() ==> r
                == ChargingStep::Continue(
                LaunchCharging { index: (charging.index + 1) as usize, time: (time - duration) as u128 },
            )
            &&& pressed && time >= duration && charging.index + 1 >= durations.0.len() ==> r
                == ChargingStep::Finish(LaunchFinished { index: charging.index })
        },
        // Charging never leaves the stages: it goes on only at a stage that has a duration, never
        // goes back, and a ready launch is at such a stage.
        r matches ChargingStep::Continue(c) ==> c.index < durations.0.len() && c.index
            >= charging.index,
        r matches ChargingStep::Finish(f) ==> f.index < durations.0.len(),
{
    if charging.index >= durations.0.len() {
        return ChargingStep::Unchanged;
    }
    let duration = durations.0[charging.index];
    if !pressed {
        if charging.index > 0 {
            return ChargingStep::Finish(LaunchFinished { index: charging.index - 1 });
        } else {
            return ChargingStep::Cancel(LaunchIdle { last_attempted: now });
        }
    }
    let mut next = *charging;
    next.time = next.time + delta;
    match next.time.checked_sub(duration) {
        Some(remainder) => {
            if charging.index + 1 < durations.0.len() {
                next.index = next.index + 1;
                next.time = remainder;
                ChargingStep::Continue(next)
            } else {
                ChargingStep::Finish(LaunchFinished { index: next.index })
            }
        },
        None => ChargingStep::Continue(next),
    }
}

/// A hit of the ray from the launcher to its target: the entity hit and what else is known of
/// the hit.
#[derive(Debug, Clone, Copy, PartialEq)]
pub struct LaunchHit<H> {
    pub entity: Entity,
    pub data: H,
}

/// Keeps the hits whose collision layers let them block the launcher: those whose filters
/// include one of the launcher's memberships. The order is kept.
pub fn blocking_hits<H: Copy>(launcher: &CollisionLayers, hits: &Vec<(LaunchHit<H>, CollisionLayers)>) -> (r: Vec<LaunchHit<H>>)
    ensures
        r@ == hits@.filter(|h: (LaunchHit<H>, CollisionLayers)| h.1.filters & launcher.memberships != 0).map_values(|h: (LaunchHit<H>, CollisionLayers)| h.0),
{
    let ghost pred = |h: (LaunchHit<H>, CollisionLayers)| h.1.filters & launcher.memberships != 0;
    let ghost first = |h: (LaunchHit<H>, CollisionLayers)| h.0;
    let mut r: Vec<LaunchHit<H>> = Vec::new();
    let mut i: usize = 0;
    while i < hits.len()
        invariant
            i <= hits.len(),
            pred == (|h: (LaunchHit<H>, CollisionLayers)| h.1.filters & launcher.memberships != 0),
            first == (|h: (LaunchHit<H>, CollisionLayers)| h.0),
            r@ == hits@.take(i as int).filter(pred).map_values(first),
        decreases hits.len() - i,
    {
        let (hit, layers) = hits[i];
        let ghost ti = hits@.take(i + 1);
        let ghost prev = r@;
        proof {
            reveal_with_fuel(Seq::<_>::filter, 1);
            assert(ti.drop_last() =~= hits@.take(i as int));
            assert(ti.last() == hits@[i as int]);
            assert(ti.filter(pred) == (if pred(ti.last()) {
                ti.drop_last().filter(pred).push(ti.last())
            } else {
                ti.drop_last().filter(pred)
            }));
        }
        if launcher.filtered_by(&layers) {
            r.push(hit);
            proof {
                assert(ti.drop_last().filter(pred).push(ti.last()).map_values(first) =~= prev.push(hit));
            }
        }
        i = i + 1;
        proof {
            assert(r@ =~= hits@.take(i as int).filter(pred).map_values(first));
        }
    }
    proof {
        assert(hits@.take(i as int) =~= hits@);
    }
    r
}

/// A request to launch at an entity, which observers of the launcher and of each entity on the
/// way may stop.
#[derive(Debug, Clone)]
pub struct TryLaunch<H> {
    by: Entity,
    at: Entity,
    index: usize,
    stopped: bool,
    current_hit: Option<H>,
    hits: Vec<LaunchHit<H>>,
    began: bool,
    cursor: usize,
}

/// What to do next while applying a launch request.
#[derive(Debug, Clone, Copy, PartialEq, Eq, Structural)]
pub enum LaunchStep {
    /// Trigger the request's observers at this entity, then ask for the next step.
    Trigger(Entity),
    /// The request was stopped: report it.
    Failed(LaunchFailed),
    /// Nobody stopped the request: launch.
    Launched(Launched),
}

impl<H: Copy> TryLaunch<H> {
    /// The entities whose observers see the request, in order: the launcher, then each entity
    /// hit on the way.
    pub closed spec fn targets(self) -> Seq<Entity> {
        seq![self.by] + self.hits@.map_values(|h: LaunchHit<H>| h.entity)
    }

    /// How many of the targets have been triggered so far.
    pub closed spec fn spec_triggered(self) -> nat {
        if self.began {
            self.cursor as nat + 1
        } else {
            0
        }
    }

    pub closed spec fn is_stopped(self) -> bool {
        self.stopped
    }

    pub closed spec fn spec_by(self) -> Entity {
        self.by
    }

    pub closed spec fn spec_at(self) -> Entity {
        self.at
    }

    pub closed spec fn spec_index(self) -> usize {
        self.index
    }

    pub closed spec fn spec_current_hit(self) -> Option<H> {
        self.current_hit
    }

    pub closed spec fn spec_hits(self) -> Seq<LaunchHit<H>> {
        self.hits@
    }

    /// The targets are the launcher, then the entity of each hit in order.
    pub proof fn lemma_targets(self)
        ensures
            self.targets() == seq![self.spec_by()] + self.spec_hits().map_values(|h: LaunchHit<H>| h.entity),
            self.targets().len() == self.spec_hits().len() + 1,
            self.targets()[0] == self.spec_by(),
            forall|k: int| 0 <= k < self.spec_hits().len() ==> #[trigger] self.targets()[k + 1] == self.spec_hits()[k].entity,
    {
        assert forall|k: int| 0 <= k < self.spec_hits().len() implies #[trigger] self.targets()[k + 1] == self.spec_hits()[k].entity by {}
    }

    /// A request by `by` to launch at `at` with stage `index`, passing `hits` on the way.
    pub fn new(by: Entity, at: Entity, index: usize, hits: Vec<LaunchHit<H>>) -> (t: Self)
        ensures
            t.spec_by() == by,
            t.spec_at() == at,
            t.spec_index() == index,
            t.spec_hits() == hits@,
            !t.is_stopped(),
            t.spec_current_hit() is None,
            t.spec_triggered() == 0,
    {
        TryLaunch { by, at, index, stopped: false, current_hit: None, hits, began: false, cursor: 0 }
    }

    /// The launcher.
    pub fn by_entity(&self) -> (e: Entity)
        ensures
            e == self.spec_by(),
    {
        self.by
    }

    /// The entity launched at.
    pub fn at(&self) -> (e: Entity)
        ensures
            e == self.spec_at(),
    {
        self.at
    }

    /// The charged stage.
    pub fn index(&self) -> (i: usize)
        ensures
            i == self.spec_index(),
    {
        self.index
    }

    /// Stops the request.
    pub fn stop(&mut self)
        ensures
            final(self).is_stopped(),
            final(self).spec_by() == old(self).spec_by(),
            final(self).targets() == old(self).targets(),
            final(self).spec_triggered() == old(self).spec_triggered(),
            final(self).spec_at() == old(self).spec_at(),
            final(self).spec_index() == old(self).spec_index(),
            final(self).spec_current_hit() == old(self).spec_current_hit(),
    {
        self.stopped = true;
    }

    /// The hit being observed. Only observers of entities on the way see one; the launcher's
    /// observers, which come first, do not.
    pub fn hit_data(&self) -> (h: H)
        requires
            self.spec_current_hit() is Some,
        ensures
            Some(h) == self.spec_current_hit(),
    {
        self.current_hit.unwrap()
    }

    /// Starts applying the request on the launcher `by`: its observers come first.
    pub fn begin(&mut self, by: Entity) -> (step: LaunchStep)
        requires
            old(self).spec_triggered() == 0,
        ensures
            step == LaunchStep::Trigger(by),
            final(self).spec_by() == by,
            final(self).targets() == seq![by] + old(self).targets().drop_first(),
            final(self).spec_triggered() == 1,
            final(self).is_stopped() == old(self).is_stopped(),
            final(self).spec_at() == old(self).spec_at(),
            final(self).spec_index() == old(self).spec_index(),
            final(self).spec_current_hit() == old(self).spec_current_hit(),
            final(self).spec_hits() == old(self).spec_hits(),
    {
        self.by = by;
        self.began = true;
        self.cursor = 0;
        proof {
            assert(self.targets().drop_first() =~= old(self).targets().drop_first());
            assert(self.targets() =~= seq![by] + old(self).targets().drop_first());
        }
        LaunchStep::Trigger(by)
    }

    /// The step after the observers of the last triggered entity ran: if one of them stopped the
    /// request, it failed there; otherwise the observers of the next entity on the way see it,
    /// with that entity's hit; after the last one, the launch goes through.
    pub fn next(&mut self) -> (step: LaunchStep)
        requires
            1 <= old(self).spec_triggered() <= old(self).targets().len(),
        ensures
            final(self).targets() == old(self).targets(),
            final(self).spec_at() == old(self).spec_at(),
            final(self).spec_index() == old(self).spec_index(),
            final(self).is_stopped() == old(self).is_stopped(),
            final(self).spec_hits() == old(self).spec_hits(),
            old(self).is_stopped() ==> step == LaunchStep::Failed(
                LaunchFailed { stopped_by: old(self).targets()[old(self).spec_triggered() - 1] },
            ) && final(self).spec_triggered() == old(self).spec_triggered(),
            !old(self).is_stopped() && old(self).spec_triggered() < old(self).targets().len() ==> {
                &&& step == LaunchStep::Trigger(old(self).targets()[old(self).spec_triggered() as int])
                &&& final(self).spec_triggered() == old(self).spec_triggered() + 1
                &&& final(self).spec_current_hit() == Some(
                    old(self).spec_hits()[old(self).spec_triggered() - 1].data,
                )
            },
            !old(self).is_stopped() && old(self).spec_triggered() == old(self).targets().len()
                ==> step == LaunchStep::Launched(
                Launched { at: old(self).spec_at(), index: old(self).spec_index() },
            ) && final(self).spec_triggered() == old(self).spec_triggered(),
    {
        let ghost targets = self.targets();
        proof {
            assert(targets.len() == self.hits@.len() + 1);
        }
        if self.stopped {
            let stopped_by = if self.cursor == 0 {
                self.by
            } else {
                self.hits[self.cursor - 1].entity
            };
            return LaunchStep::Failed(LaunchFailed { stopped_by });
        }
        if self.cursor < self.hits.len() {
            let hit = self.hits[self.cursor];
            self.current_hit = Some(hit.data);
            self.cursor = self.cursor + 1;
            proof {
                assert(self.targets() =~= targets);
            }
            LaunchStep::Trigger(hit.entity)
        } else {
            LaunchStep::Launched(Launched { at: self.at, index: self.index })
        }
    }
}

/// The damage that a launch charged up to stage `index` deals to what it is launched at:
/// 1, 4 and 8 for the first three stages, none beyond.
pub fn launch_damage(index: usize) -> (d: Option<u32>)
    ensures
        d == (if index == 0 {
            Some(1u32)
        } else if index == 1 {
            Some(4u32)
        } else if index == 2 {
            Some(8u32)
        } else {
            None
        }),
{
    let table: [u32; 3] = [1, 4, 8];
    if index < 3 {
        Some(table[index])
    } else {
        None
    }
}


broadcast use {vstd::seq_lib::group_to_multiset_ensures, vstd::multiset::group_multiset_axioms};

/// Whether hits are ordered by their distance keys, nearest first.
pub open spec fn nearest_first<H>(s: Seq<(LaunchHit<H>, u32)>) -> bool {
    forall|i: int, j: int| 0 <= i < j < s.len() ==> (#[trigger] s[i]).1 <= (#[trigger] s[j]).1
}

/// Orders hits by their distance keys, nearest first (hits at equal distances in some order).
fn sort_hits<H: Copy>(hits: Vec<(LaunchHit<H>, u32)>) -> (r: Vec<(LaunchHit<H>, u32)>)
    ensures
        r@.to_multiset() == hits@.to_multiset(),
        nearest_first(r@),
{
    let ghost orig = hits@;
    let mut rest = hits;
    let mut out: Vec<(LaunchHit<H>, u32)> = Vec::new();
    while rest.len() > 0
        invariant
            out@.to_multiset().add(rest@.to_multiset()) == orig.to_multiset(),
            nearest_first(out@),
        decreases rest.len(),
    {
        let ghost before = rest@;
        let h = rest.pop().unwrap();
        proof {
            assert(before =~= rest@.push(h));
        }
        let mut pos: usize = 0;
        while pos < out.len() && out[pos].1 <= h.1
            invariant
                pos <= out@.len(),
                forall|k: int| 0 <= k < pos ==> out@[k].1 <= h.1,
            decreases out.len() - pos,
        {
            pos = pos + 1;
        }
        let ghost prev = out@;
        out.insert(pos, h);
        proof {
            assert forall|i: int, j: int| 0 <= i < j < out@.len() implies (#[trigger] out@[i]).1 <= (#[trigger] out@[j]).1 by {
                if j < pos {
                    assert(out@[i] == prev[i] && out@[j] == prev[j]);
                } else if j == pos {
                    assert(out@[i] == prev[i]);
                } else if i < pos {
                    assert(out@[i] == prev[i] && out@[j] == prev[j - 1]);
                } else if i == pos {
                    assert(out@[j] == prev[j - 1]);
                    assert(!(pos < prev.len() && prev[pos as int].1 <= h.1));
                    if j - 1 > pos {
                        assert(prev[pos as int].1 <= prev[j - 1].1);
                    }
                } else {
                    assert(out@[i] == prev[i - 1] && out@[j] == prev[j - 1]);
                }
            }
            assert(out@.to_multiset() == prev.to_multiset().insert(h));
            assert(before.to_multiset() == rest@.to_multiset().insert(h));
            assert(out@.to_multiset().add(rest@.to_multiset()) =~= prev.to_multiset().add(before.to_multiset()));
        }
    }
    proof {
        assert(rest@.to_multiset() =~= vstd::multiset::Multiset::<(LaunchHit<H>, u32)>::empty());
        assert(out@.to_multiset() =~= out@.to_multiset().add(rest@.to_multiset()));
    }
    out
}

/// The hits that block the launcher, with their distance keys.
pub open spec fn blocking_with_distance<H>(launcher: CollisionLayers, hits: Seq<(LaunchHit<H>, CollisionLayers, u32)>) -> Seq<
    (LaunchHit<H>, u32),
> {
    hits.filter(|h: (LaunchHit<H>, CollisionLayers, u32)| h.1.filters & launcher.memberships != 0).map_values(
        |h: (LaunchHit<H>, CollisionLayers, u32)| (h.0, h.2),
    )
}

/// Fires a launch that finished charging, at `now`: when the launcher has a target that can be
/// reached (at a distance from the launcher), it goes back to idle and requests a launch at the
/// target with the finished stage, passing the hits on the way that block it (those whose
/// filters include one of the launcher's memberships), nearest first. Each hit comes with a key
/// that orders hits as their distances do.
pub fn trigger_launch_charging<H: Copy>(
    launcher: Entity,
    target: &LaunchTarget,
    target_reachable: bool,
    finished: &LaunchFinished,
    layers: &CollisionLayers,
    hits: &Vec<(LaunchHit<H>, CollisionLayers, u32)>,
    now: Duration,
) -> (r: Option<(LaunchIdle, TryLaunch<H>)>)
    ensures
        r is Some <==> (target.0 is Some && target_reachable),
        r matches Some((idle, t)) ==> {
            &&& idle == LaunchIdle { last_attempted: now }
            &&& t.spec_by() == launcher
            &&& t.spec_at() == target.0->0
            &&& t.spec_index() == finished.index
            &&& !t.is_stopped()
            &&& t.spec_current_hit() is None
            &&& t.spec_triggered() == 0
            &&& exists|sorted: Seq<(LaunchHit<H>, u32)>| {
                &&& sorted.to_multiset() == blocking_with_distance(*layers, hits@).to_multiset()
                &&& nearest_first(sorted)
                &&& t.spec_hits() == sorted.map_values(|h: (LaunchHit<H>, u32)| h.0)
            }
        },
{
    let at = match target.0 {
        Some(at) => at,
        None => {
            return None;
        },
    };
    if !target_reachable {
        return None;
    }
    let ghost pred = |h: (LaunchHit<H>, CollisionLayers, u32)| h.1.filters & layers.memberships != 0;
    let ghost proj = |h: (LaunchHit<H>, CollisionLayers, u32)| (h.0, h.2);
    let mut blocking: Vec<(LaunchHit<H>, u32)> = Vec::new();
    let mut i: usize = 0;
    while i < hits.len()
        invariant
            i <= hits.len(),
            pred == (|h: (LaunchHit<H>, CollisionLayers, u32)| h.1.filters & layers.memberships != 0),
            proj == (|h: (LaunchHit<H>, CollisionLayers, u32)| (h.0, h.2)),
            blocking@ == hits@.take(i as int).filter(pred).map_values(proj),
        decreases hits.len() - i,
    {
        let (hit, other, key) = hits[i];
        let ghost ti = hits@.take(i + 1);
        let ghost prev = blocking@;
        proof {
            reveal_with_fuel(Seq::<_>::filter, 1);
            assert(ti.drop_last() =~= hits@.take(i as int));
            assert(ti.last() == hits@[i as int]);
        }
        if layers.filtered_by(&other) {
            blocking.push((hit, key));
            proof {
                assert(ti.drop_last().filter(pred).push(ti.last()).map_values(proj) =~= prev.push((hit, key)));
            }
        }
        i = i + 1;
        proof {
            assert(blocking@ =~= hits@.take(i as int).filter(pred).map_values(proj));
        }
    }
    proof {
        assert(hits@.take(i as int) =~= hits@);
    }
    let sorted = sort_hits(blocking);
    let mut ordered: Vec<LaunchHit<H>> = Vec::new();
    let mut j: usize = 0;
    while j < sorted.len()
        invariant
            j <= sorted@.len(),
            ordered@ == sorted@.take(j as int).map_values(|h: (LaunchHit<H>, u32)| h.0),
        decreases sorted.len() - j,
    {
        ordered.push(sorted[j].0);
        proof {
            assert(sorted@.take(j + 1) =~= sorted@.take(j as int).push(sorted@[j as int]));
        }
        j = j + 1;
    }
    proof {
        assert(sorted@.take(j as int) =~= sorted@);
    }
    Some((LaunchIdle { last_attempted: now }, TryLaunch::new(launcher, at, finished.index, ordered)))
}

} // verus!
