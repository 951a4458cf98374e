use vstd::prelude::*;

use crate::entity::Entity;
use crate::graphics::sprite_sheet::SpriteSheetLayout;
use crate::time::{Duration, DURATION_MAX};

verus! {

/// A timer running for `lifetime`; `life` is the time spent so far, at most the lifetime.
///
/// Its progress, as a fraction, is `life / lifetime`.
#[derive(Debug, Clone, Copy, PartialEq, Eq, Structural)]
pub struct Timed {
    pub lifetime: Duration,
    life: Duration,
    finished: bool,
}

/// A timer finished: it ran over its lifetime `count` times, with `overtime` left over.
#[derive(Debug, Clone, Copy, PartialEq, Eq, Structural, Default)]
pub struct TimeFinished {
    pub count: usize,
    pub overtime: Duration,
}

impl Timed {
    pub closed spec fn spec_lifetime(self) -> Duration {
        self.lifetime
    }

    pub closed spec fn spec_life(self) -> Duration {
        self.life
    }

    pub closed spec fn is_finished(self) -> bool {
        self.finished
    }

    /// The timer's state is consistent: a positive lifetime, and no more life than lifetime.
    pub closed spec fn wf(self) -> bool {
        0 < self.lifetime && self.life <= self.lifetime
    }

    /// A timer for `lifetime` (at least one nanosecond), just started.
    pub fn new(lifetime: Duration) -> (t: Timed)
        ensures
            t.spec_lifetime() == (if lifetime < 1 {
                1
            } else {
                lifetime
            }),
            t.spec_life() == 0,
            !t.is_finished(),
            t.wf(),
    {
        Timed { lifetime: if lifetime < 1 {
            1
        } else {
            lifetime
        }, life: 0, finished: false }
    }

    /// A timer for `lifetime` (at least one nanosecond) that has already run for `life` (at most
    /// the lifetime).
    pub fn new_at(lifetime: Duration, life: Duration) -> (t: Timed)
        ensures
            t.spec_lifetime() == (if lifetime < 1 {
                1
            } else {
                lifetime
            }),
            t.spec_life() == (if life < t.spec_lifetime() {
                life
            } else {
                t.spec_lifetime()
            }),
            !t.is_finished(),
            t.wf(),
    {
        let lifetime = if lifetime < 1 {
            1
        } else {
            lifetime
        };
        let life = if life < lifetime {
            life
        } else {
            lifetime
        };
        Timed { lifetime, life, finished: false }
    }

    /// The time the timer has run.
    pub fn life(&self) -> (d: Duration)
        ensures
            d == self.spec_life(),
    {
        self.life
    }

    /// Whether the timer has finished.
    pub fn finished(&self) -> (b: bool)
        ensures
            b == self.is_finished(),
    {
        self.finished
    }

    /// Starts the timer over, with `overtime` already spent (as after a finish that repeats).
    pub fn repeat_from(&mut self, overtime: Duration)
        requires
            overtime <= old(self).spec_lifetime(),
        ensures
            final(self).spec_lifetime() == old(self).spec_lifetime(),
            final(self).spec_life() == overtime,
            !final(self).is_finished(),
    {
        self.life = overtime;
        self.finished = false;
    }
}

/// How long the frames `start..end` show, frames past the end of `durs` counting nothing.
pub open spec fn frames_length(durs: Seq<Duration>, start: int, end: int) -> int
    decreases end - start,
{
    if end <= start {
        0
    } else {
        frames_length(durs, start, end - 1) + (if 0 <= end - 1 < durs.len() {
            durs[end - 1] as int
        } else {
            0
        })
    }
}

proof fn lemma_frames_length_grows(durs: Seq<Duration>, start: int, mid: int, end: int)
    requires
        start <= mid <= end,
    ensures
        frames_length(durs, start, mid) <= frames_length(durs, start, end),
    decreases end - mid,
{
    if mid < end {
        lemma_frames_length_grows(durs, start, mid, end - 1);
    }
}

/// How long a timer that lasts as the animation `key` of `sheet` runs: the length of the tag's
/// frames, at least one nanosecond; one nanosecond while the sheet, or the tag in it, is not
/// there.
pub open spec fn anim_lifetime(sheet: Option<&SpriteSheetLayout>, key: Seq<char>) -> int {
    match sheet {
        Some(s) => if s.tags_map().contains_key(key) {
            let (start, end) = s.tags_map()[key];
            let len = frames_length(s.durations@, start as int, end as int);
            if len < 1 {
                1
            } else {
                len
            }
        } else {
            1
        },
        None => 1,
    }
}

impl Timed {
    /// A timer that lasts as long as the animation `key` of `sheet` (see [`anim_lifetime`]),
    /// just started.
    pub fn from_anim(sheet: Option<&SpriteSheetLayout>, key: &str) -> (t: Timed)
        requires
            anim_lifetime(sheet, key@) <= DURATION_MAX,
        ensures
            t.spec_lifetime() == anim_lifetime(sheet, key@),
            t.spec_life() == 0,
            !t.is_finished(),
            t.wf(),
    {
        let sheet = match sheet {
            Some(s) => s,
            None => return Timed::new(1),
        };
        let (start, end) = match sheet.tag(key) {
            Some(range) => range,
            None => return Timed::new(1),
        };
        let ghost durs = sheet.durations@;
        let mut lifetime: Duration = 0;
        let mut i: usize = start;
        while i < end
            invariant
                start <= i,
                start <= end ==> i <= end,
                start > end ==> i == start,
                durs == sheet.durations@,
                lifetime == frames_length(durs, start as int, i as int),
                frames_length(durs, start as int, end as int) <= DURATION_MAX
                    || frames_length(durs, start as int, end as int) < 1,
            decreases end - i,
        {
            proof {
                lemma_frames_length_grows(durs, start as int, i + 1, end as int);
            }
            if i < sheet.durations.len() {
                lifetime = lifetime + sheet.durations[i];
            }
            i = i + 1;
        }
        Timed::new(lifetime)
    }
}

/// Advances a timer by `delta`. Before its lifetime is over the timer just runs; the first time
/// it gets there it finishes, stays at its lifetime, and reports how many whole lifetimes it ran
/// over and the time left over; a finished timer reports nothing again.
pub fn update_timed(timed: &mut Timed, delta: Duration) -> (r: Option<TimeFinished>)
    requires
        old(timed).spec_lifetime() > 0,
        old(timed).spec_life() + delta <= DURATION_MAX,
        (old(timed).spec_life() + delta) / (old(timed).spec_lifetime() as int) <= usize::MAX,
    ensures
        final(timed).spec_lifetime() == old(timed).spec_lifetime(),
        ({
            let life = old(timed).spec_life() + delta;
            let lifetime = old(timed).spec_lifetime() as int;
            if life < lifetime {
                &&& final(timed).spec_life() == life
                &&& final(timed).is_finished() == old(timed).is_finished()
                &&& r is None
            } else if !old(timed).is_finished() {
                &&& final(timed).spec_life() == lifetime
                &&& final(timed).is_finished()
                &&& r == Some(TimeFinished { count: (life / lifetime) as usize, overtime: (life % lifetime) as u128 })
            } else {
                &&& final(timed).spec_life() == life
                &&& final(timed).is_finished()
                &&& r is None
            }
        }),
        // What the report gives back adds up to the time run: whole lifetimes and less than one
        // more.
        r matches Some(f) ==> old(timed).spec_lifetime() * f.count + f.overtime == old(timed).spec_life()
            + delta && f.overtime < old(timed).spec_lifetime(),
{
    let lifetime = timed.lifetime;
    timed.life = timed.life + delta;
    if timed.life < lifetime {
        None
    } else if !timed.finished {
        timed.finished = true;
        let overtime = timed.life;
        timed.life = lifetime;
        let count = overtime / lifetime;
        let rest = overtime % lifetime;
        proof {
            vstd::arithmetic::div_mod::lemma_fundamental_div_mod(overtime as int, lifetime as int);
        }
        Some(TimeFinished { count: count as usize, overtime: rest })
    } else {
        None
    }
}

/// How strongly time slows down while stunned.
#[derive(Debug, Clone, Copy, PartialEq, Eq, Structural, Default)]
pub enum TimeStunKind {
    /// Sharp and brief: a fifth of a second.
    #[default]
    ShortInstant,
    /// Slow to recover: a second.
    LongSmooth,
}

/// Time is slowed down by a stun of some kind, started at some moment.
#[derive(Debug, Clone, Copy, PartialEq, Eq, Structural)]
pub struct TimeStun(TimeStunKind, Duration);

impl TimeStun {
    pub closed spec fn spec_kind(self) -> TimeStunKind {
        self.0
    }

    pub closed spec fn spec_started(self) -> Duration {
        self.1
    }

    /// A stun of `kind`, not started yet.
    pub fn new(kind: TimeStunKind) -> (s: TimeStun)
        ensures
            s.spec_kind() == kind,
            s.spec_started() == 0,
    {
        TimeStun(kind, 0)
    }

    /// A short, sharp stun.
    pub fn short_instant() -> (s: TimeStun)
        ensures
            s.spec_kind() == TimeStunKind::ShortInstant,
            s.spec_started() == 0,
    {
        Self::new(TimeStunKind::ShortInstant)
    }

    /// A long, smooth stun.
    pub fn long_smooth() -> (s: TimeStun)
        ensures
            s.spec_kind() == TimeStunKind::LongSmooth,
            s.spec_started() == 0,
    {
        Self::new(TimeStunKind::LongSmooth)
    }

    /// When the stun started.
    pub fn started(&self) -> (d: Duration)
        ensures
            d == self.spec_started(),
    {
        self.1
    }

    /// The stun's kind.
    pub fn kind(&self) -> (k: TimeStunKind)
        ensures
            k == self.spec_kind(),
    {
        self.0
    }
}

/// How long a stun of `kind` lasts.
pub open spec fn stun_length(kind: TimeStunKind) -> nat {
    match kind {
        TimeStunKind::ShortInstant => 200_000_000,
        TimeStunKind::LongSmooth => 1_000_000_000,
    }
}

/// A stun starts at the (real) time at which it is inserted.
pub fn on_time_stun_insert(stun: &mut TimeStun, elapsed: Duration)
    ensures
        final(stun).spec_kind() == old(stun).spec_kind(),
        final(stun).spec_started() == elapsed,
{
    stun.1 = elapsed;
}

/// Whether a stun is over at time `now`: its length has passed since it started.
pub fn time_stun_expired(stun: &TimeStun, now: Duration) -> (b: bool)
    requires
        stun.spec_started() <= now,
    ensures
        b == (now - stun.spec_started() >= stun_length(stun.spec_kind())),
{
    let length: u128 = match stun.0 {
        TimeStunKind::ShortInstant => 200_000_000,
        TimeStunKind::LongSmooth => 1_000_000_000,
    };
    now - stun.1 >= length
}

/// The stuns that are over at time `now`, to be removed.
pub fn expired_time_stuns(stuns: &Vec<(Entity, TimeStun)>, now: Duration) -> (r: Vec<Entity>)
    requires
        forall|i: int| 0 <= i < stuns@.len() ==> (#[trigger] stuns@[i]).1.spec_started() <= now,
    ensures
        r@ == stuns@.filter(|s: (Entity, TimeStun)| now - s.1.spec_started() >= stun_length(s.1.spec_kind())).map_values(|s: (Entity, TimeStun)| s.0),
{
    let ghost pred = |s: (Entity, TimeStun)| now - s.1.spec_started() >= stun_length(s.1.spec_kind());
    let ghost first = |s: (Entity, TimeStun)| s.0;
    let mut r: Vec<Entity> = Vec::new();
    let mut i: usize = 0;
    while i < stuns.len()
        invariant
            i <= stuns.len(),
            forall|i: int| 0 <= i < stuns@.len() ==> (#[trigger] stuns@[i]).1.spec_started() <= now,
            pred == (|s: (Entity, TimeStun)| now - s.1.spec_started() >= stun_length(s.1.spec_kind())),
            first == (|s: (Entity, TimeStun)| s.0),
            r@ == stuns@.take(i as int).filter(pred).map_values(first),
        decreases stuns.len() - i,
    {
        let (e, stun) = stuns[i];
        let ghost ti = stuns@.take(i + 1);
        let ghost prev = r@;
        proof {
            reveal_with_fuel(Seq::<_>::filter, 1);
            assert(ti.drop_last() =~= stuns@.take(i as int));
            assert(ti.last() == stuns@[i as int]);
        }
        if time_stun_expired(&stun, now) {
            r.push(e);
            proof {
                assert(ti.drop_last().filter(pred).push(ti.last()).map_values(first) =~= prev.push(e));
            }
        }
        i = i + 1;
        proof {
            assert(r@ =~= stuns@.take(i as int).filter(pred).map_values(first));
        }
    }
    proof {
        assert(stuns@.take(i as int) =~= stuns@);
    }
    r
}


/// How fast game time runs during stuns: normally, nearly stopped, or recovering (a stun that
/// has lasted the given time, the speed growing with it).
#[derive(Debug, Clone, Copy, PartialEq, Eq, Structural)]
pub enum TimeScale {
    Normal,
    Stunned,
    Recovering(Duration),
}

/// The speed that one stun asks for at `now`: none once over; a short stun nearly stops time;
/// a long one nearly stops it for its first 150 milliseconds, then lets it recover.
pub open spec fn stun_scale(stun: TimeStun, now: Duration) -> TimeScale {
    let elapsed = now - stun.spec_started();
    if elapsed >= stun_length(stun.spec_kind()) {
        TimeScale::Normal
    } else {
        match stun.spec_kind() {
            TimeStunKind::ShortInstant => TimeScale::Stunned,
            TimeStunKind::LongSmooth => if elapsed < 150_000_000 {
                TimeScale::Stunned
            } else {
                TimeScale::Recovering(elapsed as Duration)
            },
        }
    }
}

/// The slower of two speeds (a recovery that has lasted less is slower).
pub open spec fn slower(a: TimeScale, b: TimeScale) -> TimeScale {
    match (a, b) {
        (TimeScale::Stunned, _) => TimeScale::Stunned,
        (_, TimeScale::Stunned) => TimeScale::Stunned,
        (TimeScale::Recovering(x), TimeScale::Recovering(y)) => TimeScale::Recovering(if x <= y { x } else { y }),
        (TimeScale::Recovering(x), TimeScale::Normal) => TimeScale::Recovering(x),
        (TimeScale::Normal, b) => b,
    }
}

/// The slowest speed that the stuns ask for (normal speed without stuns).
pub open spec fn stuns_scale(stuns: Seq<(Entity, TimeStun)>, now: Duration) -> TimeScale
    decreases stuns.len(),
{
    if stuns.len() == 0 {
        TimeScale::Normal
    } else {
        slower(stuns_scale(stuns.drop_last(), now), stun_scale(stuns.last().1, now))
    }
}

fn slower_exec(a: TimeScale, b: TimeScale) -> (r: TimeScale)
    ensures
        r == slower(a, b),
{
    match (a, b) {
        (TimeScale::Stunned, _) => TimeScale::Stunned,
        (_, TimeScale::Stunned) => TimeScale::Stunned,
        (TimeScale::Recovering(x), TimeScale::Recovering(y)) => TimeScale::Recovering(if x <= y { x } else { y }),
        (TimeScale::Recovering(x), TimeScale::Normal) => TimeScale::Recovering(x),
        (TimeScale::Normal, b) => b,
    }
}

/// One frame of the stuns at real time `now`: the stuns that are over (to be removed), and the
/// speed of game time, the slowest that the stuns ask for.
pub fn update_time_stun(stuns: &Vec<(Entity, TimeStun)>, now: Duration) -> (r: (Vec<Entity>, TimeScale))
    requires
        forall|i: int| 0 <= i < stuns@.len() ==> (#[trigger] stuns@[i]).1.spec_started() <= now,
    ensures
        r.0@ == stuns@.filter(|s: (Entity, TimeStun)| now - s.1.spec_started() >= stun_length(s.1.spec_kind())).map_values(|s: (Entity, TimeStun)| s.0),
        r.1 == stuns_scale(stuns@, now),
{
    let expired = expired_time_stuns(stuns, now);
    let mut scale = TimeScale::Normal;
    let mut i: usize = 0;
    while i < stuns.len()
        invariant
            i <= stuns@.len(),
            forall|k: int| 0 <= k < stuns@.len() ==> (#[trigger] stuns@[k]).1.spec_started() <= now,
            scale == stuns_scale(stuns@.take(i as int), now),
        decreases stuns.len() - i,
    {
        let stun = stuns[i].1;
        let elapsed = now - stun.1;
        let one = if time_stun_expired(&stun, now) {
            TimeScale::Normal
        } else {
            match stun.0 {
                TimeStunKind::ShortInstant => TimeScale::Stunned,
                TimeStunKind::LongSmooth => if elapsed < 150_000_000 {
                    TimeScale::Stunned
                } else {
                    TimeScale::Recovering(elapsed)
                },
            }
        };
        proof {
            assert(stuns@.take(i + 1).drop_last() =~= stuns@.take(i as int));
            assert(stuns@.take(i + 1).last() == stuns@[i as int]);
        }
        scale = slower_exec(scale, one);
        i = i + 1;
    }
    proof {
        assert(stuns@.take(i as int) =~= stuns@);
    }
    (expired, scale)
}

} // verus!
