use vstd::prelude::*;

use crate::graphics::sprite_sheet::SpriteSheetLayout;
use crate::time::{Duration, DURATION_MAX};

verus! {

/// What an animation does once it reaches the last frame of its tag.
#[derive(Debug, Clone, Copy, PartialEq, Eq, Structural, Default)]
pub enum AnimationMode {
    /// Stays on the last frame, and is no longer drawn once finished.
    #[default]
    Finish,
    /// Stays on the last frame.
    Saturate,
    /// Starts over from the first frame.
    Repeat,
}

/// Where an animation is: time spent on the current frame, the frame, and whether it finished.
#[derive(Debug, Clone, Copy, PartialEq, Eq, Structural, Default)]
pub struct AnimationData {
    pub time: Duration,
    pub frame: usize,
    pub finished: bool,
}

/// A request to switch an animation to the tag `key`.
#[derive(Debug, Clone, PartialEq, Eq)]
pub struct AnimateKey {
    pub key: String,
    reset_duration: bool,
    fire_exit: bool,
}

impl AnimateKey {
    pub closed spec fn spec_reset_duration(self) -> bool {
        self.reset_duration
    }

    pub closed spec fn spec_fire_exit(self) -> bool {
        self.fire_exit
    }

    pub closed spec fn spec_key(self) -> Seq<char> {
        self.key@
    }

    /// Switches to `key`, resetting the frame time or not; the previous tag's exit is reported.
    pub fn new(key: String, reset_duration: bool) -> (a: AnimateKey)
        ensures
            a.spec_key() == key@,
            a.spec_reset_duration() == reset_duration,
            a.spec_fire_exit(),
    {
        AnimateKey { key, reset_duration, fire_exit: true }
    }

    /// Switches to `key`, keeping the time spent on the current frame.
    pub fn continuous(key: String) -> (a: AnimateKey)
        ensures
            a.spec_key() == key@,
            !a.spec_reset_duration(),
            a.spec_fire_exit(),
    {
        Self::new(key, false)
    }

    /// Switches to `key`, starting its first frame afresh.
    pub fn reset(key: String) -> (a: AnimateKey)
        ensures
            a.spec_key() == key@,
            a.spec_reset_duration(),
            a.spec_fire_exit(),
    {
        Self::new(key, true)
    }

    /// Whether the switch resets the frame time.
    pub fn reset_duration(&self) -> (b: bool)
        ensures
            b == self.spec_reset_duration(),
    {
        self.reset_duration
    }

    /// Whether the switch reports the exit of the previous tag.
    pub fn fire_exit(&self) -> (b: bool)
        ensures
            b == self.spec_fire_exit(),
    {
        self.fire_exit
    }
}

/// The tag `0` was entered.
#[derive(Debug, Clone, PartialEq, Eq)]
pub struct OnAnimateEnter(pub String);

/// The tag `0` was played to its end.
#[derive(Debug, Clone, PartialEq, Eq)]
pub struct OnAnimateDone(pub String);

/// The tag `0` was left.
#[derive(Debug, Clone, PartialEq, Eq)]
pub struct OnAnimateExit(pub String);

impl AnimationData {
    /// Enters a tag that starts at frame `start`: the animation goes to that frame, unfinished,
    /// with its frame time reset if asked.
    pub fn enter_tag(&mut self, start: usize, reset_duration: bool)
        ensures
            final(self).frame == start,
            !final(self).finished,
            final(self).time == (if reset_duration {
                0
            } else {
                old(self).time
            }),
    {
        if reset_duration {
            self.time = 0;
        }
        self.frame = start;
        self.finished = false;
    }
}

/// The frames `start..=end` of the tag `key` of `sheet`, when the sheet is there and has it.
pub open spec fn sheet_tag(sheet: Option<&SpriteSheetLayout>, key: Seq<char>) -> Option<(usize, usize)> {
    match sheet {
        Some(s) => if s.tags_map().contains_key(key) {
            Some(s.tags_map()[key])
        } else {
            None
        },
        None => None,
    }
}

/// What switching an animation to another tag leads to: the animation's key and data after it,
/// and the tag left and the tag entered, to be reported.
#[derive(Debug, Clone, PartialEq, Eq)]
pub struct AnimateOutcome {
    pub key: String,
    pub data: AnimationData,
    pub exit: Option<String>,
    pub enter: Option<String>,
}

impl AnimateKey {
    /// Switches an animation whose key is `old_key` and whose data is `data`, drawn from
    /// `sheet` (if loaded), to this request's key. The old key's exit is reported when asked;
    /// the key changes in any case; when the sheet has the new tag, the animation enters it at
    /// its first frame (see [`AnimationData::enter_tag`]) and the entry is reported; otherwise
    /// the data stays and no entry is reported.
    pub fn apply(&self, old_key: String, sheet: Option<&SpriteSheetLayout>, data: AnimationData) -> (o: AnimateOutcome)
        ensures
            o.key@ == self.spec_key(),
            o.exit is Some == self.spec_fire_exit(),
            o.exit matches Some(k) ==> k@ == old_key@,
            match sheet_tag(sheet, self.spec_key()) {
                Some((start, end)) => {
                    &&& o.data.frame == start
                    &&& !o.data.finished
                    &&& o.data.time == (if self.spec_reset_duration() {
                        0
                    } else {
                        data.time
                    })
                    &&& o.enter matches Some(k) && k@ == self.spec_key()
                },
                None => o.data == data && o.enter is None,
            },
    {
        let exit = if self.fire_exit {
            Some(old_key)
        } else {
            None
        };
        let tag = match sheet {
            Some(s) => s.tag(self.key.as_str()),
            None => None,
        };
        let mut data = data;
        let enter = match tag {
            Some((start, _)) => {
                data.enter_tag(start, self.reset_duration);
                Some(self.key.clone())
            },
            None => None,
        };
        AnimateOutcome { key: self.key.clone(), data, exit, enter }
    }
}

/// The duration of frame `f`, if it has one.
pub open spec fn frame_duration(durs: Seq<Duration>, f: int) -> Option<Duration> {
    if 0 <= f < durs.len() {
        Some(durs[f])
    } else {
        None
    }
}

/// The frame after `f` within the tag `start..=end`: the next one, or the first after the last
/// when repeating.
pub open spec fn following_frame(f: int, start: int, end: int) -> int {
    if f < end {
        f + 1
    } else {
        start
    }
}

/// How many frames in a row, from `f` on, last no time at all and are left for another frame,
/// counted up to `fuel`.
pub open spec fn zero_run(
    durs: Seq<Duration>,
    f: int,
    start: int,
    end: int,
    repeat: bool,
    fuel: nat,
) -> nat
    decreases fuel,
{
    if fuel == 0 {
        0
    } else if frame_duration(durs, f) == Some(0u128) && (f < end || repeat) {
        1 + zero_run(durs, following_frame(f, start, end), start, end, repeat, (fuel - 1) as nat)
    } else {
        0
    }
}

/// Playing the tag `start..=end` always comes to a stop: from no frame of the tag does the run
/// of frames that last no time go all the way around it.
pub open spec fn tag_plays_out(durs: Seq<Duration>, start: int, end: int, repeat: bool) -> bool {
    forall|f: int|
        start <= f <= end ==> #[trigger] zero_run(durs, f, start, end, repeat, (end - start + 2) as nat)
            <= end - start + 1
}

pub proof fn lemma_zero_run_stable(durs: Seq<Duration>, f: int, start: int, end: int, repeat: bool, k: nat)
    requires
        zero_run(durs, f, start, end, repeat, k) < k,
    ensures
        zero_run(durs, f, start, end, repeat, k + 1) == zero_run(durs, f, start, end, repeat, k),
    decreases k,
{
    if k > 0 && frame_duration(durs, f) == Some(0u128) && (f < end || repeat) {
        lemma_zero_run_stable(durs, following_frame(f, start, end), start, end, repeat, (k - 1) as nat);
    }
}

/// Passing a frame that lasts no time shortens the run of such frames ahead by one.
pub proof fn lemma_zero_run_step(durs: Seq<Duration>, f: int, start: int, end: int, repeat: bool)
    requires
        start <= f <= end,
        tag_plays_out(durs, start, end, repeat),
        frame_duration(durs, f) == Some(0u128),
        f < end || repeat,
    ensures
        zero_run(durs, following_frame(f, start, end), start, end, repeat, (end - start + 2) as nat)
            < zero_run(durs, f, start, end, repeat, (end - start + 2) as nat),
{
    let fuel = (end - start + 2) as nat;
    let g = following_frame(f, start, end);
    assert(zero_run(durs, f, start, end, repeat, fuel) <= end - start + 1);
    assert(zero_run(durs, f, start, end, repeat, fuel) == 1 + zero_run(durs, g, start, end, repeat, (fuel - 1) as nat));
    lemma_zero_run_stable(durs, g, start, end, repeat, (fuel - 1) as nat);
}

/// The frame and the time left after playing from frame `f` with `time` to spend: while there is
/// time left and it covers the current frame's duration, the frame's duration is spent and the
/// animation moves to the following frame (at the last frame: to the first when repeating,
/// otherwise it stays).
pub open spec fn spec_play(
    durs: Seq<Duration>,
    f: int,
    time: int,
    start: int,
    end: int,
    repeat: bool,
) -> (int, int)
    decreases time, zero_run(durs, f, start, end, repeat, (end - start + 2) as nat),
    when tag_plays_out(durs, start, end, repeat) && start <= f <= end && time >= 0
{
    match frame_duration(durs, f) {
        Some(d) => if time > 0 && time >= d && (f < end || repeat) {
            proof {
                if d == 0 {
                    lemma_zero_run_step(durs, f, start, end, repeat);
                }
            }
            spec_play(durs, following_frame(f, start, end), time - d, start, end, repeat)
        } else {
            (f, time)
        },
        None => (f, time),
    }
}

/// Playing a tag keeps the animation within the tag, and spends no more time than it has.
pub proof fn law_play_stays_in_tag(durs: Seq<Duration>, f: int, time: int, start: int, end: int, repeat: bool)
    requires
        tag_plays_out(durs, start, end, repeat),
        start <= f <= end,
        time >= 0,
    ensures
        start <= spec_play(durs, f, time, start, end, repeat).0 <= end,
        0 <= spec_play(durs, f, time, start, end, repeat).1 <= time,
    decreases time, zero_run(durs, f, start, end, repeat, (end - start + 2) as nat),
{
    match frame_duration(durs, f) {
        Some(d) => if time > 0 && time >= d && (f < end || repeat) {
            if d == 0 {
                lemma_zero_run_step(durs, f, start, end, repeat);
            }
            law_play_stays_in_tag(durs, following_frame(f, start, end), time - d, start, end, repeat);
        },
        None => {},
    }
}

/// `x` clamped to `lo..=hi`.
pub open spec fn clamp(x: int, lo: int, hi: int) -> int {
    if x < lo {
        lo
    } else if x > hi {
        hi
    } else {
        x
    }
}

/// Whether an animation that played to `played` (frame and time left) finishes now: it does not
/// repeat, it stands on the last frame `end` with time enough for it, and it had not finished.
pub open spec fn animation_finishes(durs: Seq<Duration>, played: (int, int), end: int, repeat: bool, finished: bool) -> bool {
    !repeat && played.0 == end && (frame_duration(durs, end) matches Some(d) && played.1 >= d) && !finished
}

/// One frame of an animation keeps it within its tag, and reports the end of the tag only for
/// an animation that does not repeat, had not finished, stands on the tag's last frame and has
/// time enough for it (so at most once until it enters a tag again); a repeating one never
/// finishes, and one that has not reached its last frame never finishes.
pub proof fn law_animation_frame(
    durs: Seq<Duration>,
    frame: int,
    time: int,
    start: int,
    end: int,
    repeat: bool,
    finished: bool,
)
    requires
        start <= end,
        tag_plays_out(durs, start, end, repeat),
        time >= 0,
    ensures
        start <= spec_play(durs, clamp(frame, start, end), time, start, end, repeat).0 <= end,
        animation_finishes(durs, spec_play(durs, clamp(frame, start, end), time, start, end, repeat), end, repeat, finished)
            ==> !repeat && !finished && spec_play(durs, clamp(frame, start, end), time, start, end, repeat).0 == end && 0
            <= end < durs.len() && spec_play(durs, clamp(frame, start, end), time, start, end, repeat).1 >= durs[end],
{
    law_play_stays_in_tag(durs, clamp(frame, start, end), time, start, end, repeat);
}

/// One frame of an animation, `delta` after the last, playing the frames `start..=end` of its
/// tag (if the tag exists) with the frames' `durations`. Returns whether the animation just
/// played its tag to the end (to be reported).
///
/// The time grows by `delta`; the frame is brought within the tag, then played forward (see
/// [`spec_play`]). Unless repeating, an animation on the last frame with time enough for it
/// finishes: that frame's duration is spent, once.
pub fn update_animation(
    data: &mut AnimationData,
    tag: Option<(usize, usize)>,
    durations: &Vec<Duration>,
    mode: AnimationMode,
    delta: Duration,
) -> (done: bool)
    requires
        old(data).time + delta <= DURATION_MAX,
        tag matches Some((start, end)) ==> start <= end && tag_plays_out(
            durations@,
            start as int,
            end as int,
            mode == AnimationMode::Repeat,
        ),
    ensures
        tag is None ==> final(data).time == old(data).time + delta && final(data).frame == old(
            data,
        ).frame && final(data).finished == old(data).finished && !done,
        tag matches Some((start, end)) ==> {
            let repeat = mode == AnimationMode::Repeat;
            let played = spec_play(
                durations@,
                clamp(old(data).frame as int, start as int, end as int),
                old(data).time + delta,
                start as int,
                end as int,
                repeat,
            );
            let finishing = animation_finishes(durations@, played, end as int, repeat, old(data).finished);
            &&& final(data).frame == played.0
            &&& start <= final(data).frame <= end
            &&& (done ==> final(data).frame == end && !repeat && !old(data).finished)
            &&& (final(data).finished && !old(data).finished ==> done)
            &&& done == finishing
            &&& final(data).finished == (old(data).finished || finishing)
            &&& final(data).time == (if finishing {
                played.1 - frame_duration(durations@, end as int)->0
            } else {
                played.1
            })
        },
{
    data.time = data.time + delta;
    let (start, end) = match tag {
        Some(t) => t,
        None => {
            return false;
        },
    };
    let repeat = match mode {
        AnimationMode::Repeat => true,
        _ => false,
    };
    let ghost durs = durations@;
    data.frame = if data.frame < start {
        start
    } else if data.frame > end {
        end
    } else {
        data.frame
    };
    let ghost target = spec_play(durs, data.frame as int, data.time as int, start as int, end as int, repeat);
    proof {
        assert(repeat == (mode == AnimationMode::Repeat));
        assert(data.frame as int == clamp(old(data).frame as int, start as int, end as int));
        assert(data.time == old(data).time + delta);
    }
    loop
        invariant
            durs == durations@,
            data.finished == old(data).finished,
            start <= data.frame <= end,
            tag_plays_out(durs, start as int, end as int, repeat),
            spec_play(durs, data.frame as int, data.time as int, start as int, end as int, repeat)
                == target,
        ensures
            target == (data.frame as int, data.time as int),
        decreases data.time, zero_run(durs, data.frame as int, start as int, end as int, repeat, (end - start + 2) as nat),
    {
        if data.time == 0 {
            break;
        }
        if data.frame >= durations.len() {
            break;
        }
        let duration = durations[data.frame];
        if data.time < duration {
            break;
        }
        if data.frame < end {
            proof {
                if duration == 0 {
                    lemma_zero_run_step(durs, data.frame as int, start as int, end as int, repeat);
                }
            }
            data.frame = data.frame + 1;
            data.time = data.time - duration;
        } else if repeat {
            proof {
                if duration == 0 {
                    lemma_zero_run_step(durs, data.frame as int, start as int, end as int, repeat);
                }
            }
            data.frame = start;
            data.time = data.time - duration;
        } else {
            break;
        }
    }
    proof {
        assert(target == spec_play(durs, clamp(old(data).frame as int, start as int, end as int), old(data).time + delta, start as int, end as int, repeat));
        assert(data.frame as int == target.0);
        assert(data.time as int == target.1);
    }
    if !repeat && data.frame == end && end < durations.len() && data.time >= durations[end]
        && !data.finished {
        data.finished = true;
        data.time = data.time - durations[end];
        return true;
    }
    false
}

/// The frame drawn after `frame` while blending, in the tag `start..=end`: the next frame; at
/// the last frame, the first one when repeating and none otherwise.
pub fn next_animation_frame(mode: AnimationMode, frame: usize, start: usize, end: usize) -> (r: Option<usize>)
    requires
        frame != end ==> frame < usize::MAX,
    ensures
        frame == end ==> r == (if mode == AnimationMode::Repeat {
            Some(start)
        } else {
            None
        }),
        frame != end ==> r == Some((frame + 1) as usize),
{
    match mode {
        AnimationMode::Finish | AnimationMode::Saturate => {
            if frame == end {
                None
            } else {
                Some(frame + 1)
            }
        },
        AnimationMode::Repeat => {
            if frame == end {
                Some(start)
            } else {
                Some(frame + 1)
            }
        },
    }
}

/// Whether an animation is still drawn: unless it finishes for good, it always is.
pub fn animation_visible(data: &AnimationData, mode: AnimationMode) -> (b: bool)
    ensures
        b == (!data.finished || mode != AnimationMode::Finish),
{
    match mode {
        AnimationMode::Finish => !data.finished,
        _ => true,
    }
}


// ---------------------------------------------------------------------------------------------
// Hooks
// ---------------------------------------------------------------------------------------------
/// When a hook of an animation runs: on entering, finishing or leaving a tag.
#[derive(Debug, Clone, Copy, PartialEq, Eq, Structural)]
pub enum HookEvent {
    Enter,
    Done,
    Exit,
}

/// A built-in hook: switch the animation to a tag, or despawn the animated entity.
#[derive(Debug, Clone, PartialEq, Eq)]
pub enum HookAction {
    SetKey(AnimateKey),
    Despawn,
}

/// The systems of each tag, as a map from tag to systems in order.
pub open spec fn hooks_map<S>(list: Seq<(String, Vec<S>)>) -> Map<Seq<char>, Seq<S>>
    decreases list.len(),
{
    if list.len() == 0 {
        Map::empty()
    } else {
        hooks_map(list.drop_last()).insert(list.last().0@, list.last().1@)
    }
}

/// No tag is listed twice.
pub open spec fn distinct_tags<S>(list: Seq<(String, Vec<S>)>) -> bool {
    forall|i: int, j: int| 0 <= i < j < list.len() ==> (#[trigger] list[i]).0@ != (#[trigger] list[j]).0@
}

/// The systems of `key` in a map (none when it has no entry).
pub open spec fn systems_of<S>(m: Map<Seq<char>, Seq<S>>, key: Seq<char>) -> Seq<S> {
    if m.contains_key(key) {
        m[key]
    } else {
        Seq::empty()
    }
}

proof fn lemma_hooks_map_entry<S>(list: Seq<(String, Vec<S>)>, j: int)
    requires
        distinct_tags(list),
        0 <= j < list.len(),
    ensures
        hooks_map(list).contains_key(list[j].0@),
        hooks_map(list)[list[j].0@] == list[j].1@,
    decreases list.len(),
{
    if j < list.len() - 1 {
        lemma_hooks_map_entry(list.drop_last(), j);
        assert(list.drop_last()[j] == list[j]);
        assert(list.last().0@ != list[j].0@);
    }
}

proof fn lemma_hooks_map_absent<S>(list: Seq<(String, Vec<S>)>, key: Seq<char>)
    requires
        forall|i: int| 0 <= i < list.len() ==> (#[trigger] list[i]).0@ != key,
    ensures
        !hooks_map(list).contains_key(key),
    decreases list.len(),
{
    if list.len() > 0 {
        assert forall|i: int| 0 <= i < list.drop_last().len() implies (#[trigger] list.drop_last()[i]).0@ != key by {
            assert(list.drop_last()[i] == list[i]);
        }
        lemma_hooks_map_absent(list.drop_last(), key);
    }
}

proof fn lemma_hooks_map_update<S>(list: Seq<(String, Vec<S>)>, j: int, v: (String, Vec<S>))
    requires
        distinct_tags(list),
        0 <= j < list.len(),
        v.0@ == list[j].0@,
    ensures
        hooks_map(list.update(j, v)) == hooks_map(list).insert(v.0@, v.1@),
    decreases list.len(),
{
    let u = list.update(j, v);
    if j == list.len() - 1 {
        assert(u.drop_last() =~= list.drop_last());
        assert forall|i: int| 0 <= i < list.drop_last().len() implies (#[trigger] list.drop_last()[i]).0@ != v.0@ by {
            assert(list.drop_last()[i] == list[i]);
        }
        lemma_hooks_map_absent(list.drop_last(), v.0@);
        assert(hooks_map(u) =~= hooks_map(list).insert(v.0@, v.1@));
    } else {
        assert(u.drop_last() =~= list.drop_last().update(j, v));
        assert(distinct_tags(list.drop_last())) by {
            assert forall|a: int, b: int| 0 <= a < b < list.drop_last().len() implies (#[trigger] list.drop_last()[a]).0@
                != (#[trigger] list.drop_last()[b]).0@ by {
                assert(list.drop_last()[a] == list[a] && list.drop_last()[b] == list[b]);
            }
        }
        lemma_hooks_map_update(list.drop_last(), j, v);
        assert(list.last().0@ != v.0@);
        assert(hooks_map(u) =~= hooks_map(list).insert(v.0@, v.1@));
    }
}

proof fn lemma_hooks_map_len<S>(list: Seq<(String, Vec<S>)>)
    requires
        distinct_tags(list),
    ensures
        hooks_map(list).dom().finite(),
        hooks_map(list).dom().len() == list.len(),
    decreases list.len(),
{
    if list.len() > 0 {
        let rest = list.drop_last();
        assert(distinct_tags(rest)) by {
            assert forall|a: int, b: int| 0 <= a < b < rest.len() implies (#[trigger] rest[a]).0@ != (#[trigger] rest[b]).0@ by {
                assert(rest[a] == list[a] && rest[b] == list[b]);
            }
        }
        lemma_hooks_map_len(rest);
        assert forall|i: int| 0 <= i < rest.len() implies (#[trigger] rest[i]).0@ != list.last().0@ by {
            assert(rest[i] == list[i]);
        }
        lemma_hooks_map_absent(rest, list.last().0@);
    }
}

fn find_tag<S>(list: &Vec<(String, Vec<S>)>, key: &str) -> (r: Option<usize>)
    ensures
        match r {
            Some(j) => j < list@.len() && list@[j as int].0@ == key@,
            None => forall|i: int| 0 <= i < list@.len() ==> (#[trigger] list@[i]).0@ != key@,
        },
{
    let mut i: usize = 0;
    while i < list.len()
        invariant
            i <= list@.len(),
            forall|k: int| 0 <= k < i ==> (#[trigger] list@[k]).0@ != key@,
        decreases list.len() - i,
    {
        if crate::text::str_eq(list[i].0.as_str(), key) {
            return Some(i);
        }
        i = i + 1;
    }
    None
}

fn add_hook<S>(list: &mut Vec<(String, Vec<S>)>, key: String, system: S)
    requires
        distinct_tags(old(list)@),
    ensures
        distinct_tags(final(list)@),
        hooks_map(final(list)@) == hooks_map(old(list)@).insert(key@, systems_of(hooks_map(old(list)@), key@).push(system)),
{
    match find_tag(list, key.as_str()) {
        Some(j) => {
            proof {
                lemma_hooks_map_entry(list@, j as int);
            }
            let ghost prev = list@;
            let (k, mut systems) = list.remove(j);
            systems.push(system);
            list.insert(j, (k, systems));
            proof {
                assert(list@ =~= prev.update(j as int, list@[j as int]));
                lemma_hooks_map_update(prev, j as int, list@[j as int]);
                assert forall|a: int, b: int| 0 <= a < b < list@.len() implies (#[trigger] list@[a]).0@
                    != (#[trigger] list@[b]).0@ by {
                    assert(list@[a].0@ == prev[a].0@ && list@[b].0@ == prev[b].0@);
                }
            }
        },
        None => {
            proof {
                lemma_hooks_map_absent(list@, key@);
            }
            let ghost prev = list@;
            let mut systems: Vec<S> = Vec::new();
            systems.push(system);
            list.push((key, systems));
            proof {
                assert(list@.drop_last() =~= prev);
                assert(systems_of(hooks_map(prev), list@.last().0@) =~= Seq::<S>::empty());
                assert(list@.last().1@ =~= Seq::<S>::empty().push(system));
                assert forall|a: int, b: int| 0 <= a < b < list@.len() implies (#[trigger] list@[a]).0@
                    != (#[trigger] list@[b]).0@ by {
                    if b == prev.len() {
                        assert(list@[a] == prev[a]);
                    } else {
                        assert(list@[a] == prev[a] && list@[b] == prev[b]);
                    }
                }
            }
        },
    }
}

/// Systems run when an animation enters, finishes or leaves a tag, by tag and in the order in
/// which they were added.
pub struct AnimationHooks<S> {
    enter: Vec<(String, Vec<S>)>,
    done: Vec<(String, Vec<S>)>,
    exit: Vec<(String, Vec<S>)>,
}

impl<S> AnimationHooks<S> {
    /// The systems of each tag for an event.
    pub closed spec fn spec_hooks(&self, event: HookEvent) -> Map<Seq<char>, Seq<S>> {
        match event {
            HookEvent::Enter => hooks_map(self.enter@),
            HookEvent::Done => hooks_map(self.done@),
            HookEvent::Exit => hooks_map(self.exit@),
        }
    }

    pub closed spec fn wf(&self) -> bool {
        distinct_tags(self.enter@) && distinct_tags(self.done@) && distinct_tags(self.exit@)
    }

    /// No hooks.
    pub fn new() -> (h: Self)
        ensures
            h.wf(),
            forall|e: HookEvent| #[trigger] h.spec_hooks(e) == Map::<Seq<char>, Seq<S>>::empty(),
    {
        let h = AnimationHooks { enter: Vec::new(), done: Vec::new(), exit: Vec::new() };
        proof {
            assert forall|e: HookEvent| #[trigger] h.spec_hooks(e) == Map::<Seq<char>, Seq<S>>::empty() by {
                assert(hooks_map(h.enter@) =~= Map::<Seq<char>, Seq<S>>::empty());
                assert(hooks_map(h.done@) =~= Map::<Seq<char>, Seq<S>>::empty());
                assert(hooks_map(h.exit@) =~= Map::<Seq<char>, Seq<S>>::empty());
            }
        }
        h
    }

    /// Adds `system` to run when the animation enters `key`.
    pub fn on_enter(self, key: String, system: S) -> (h: Self)
        requires
            self.wf(),
        ensures
            h.wf(),
            h.spec_hooks(HookEvent::Enter) == self.spec_hooks(HookEvent::Enter).insert(
                key@,
                systems_of(self.spec_hooks(HookEvent::Enter), key@).push(system),
            ),
            h.spec_hooks(HookEvent::Done) == self.spec_hooks(HookEvent::Done),
            h.spec_hooks(HookEvent::Exit) == self.spec_hooks(HookEvent::Exit),
    {
        let mut h = self;
        add_hook(&mut h.enter, key, system);
        h
    }

    /// Adds `system` to run when the animation finishes `key`.
    pub fn on_done(self, key: String, system: S) -> (h: Self)
        requires
            self.wf(),
        ensures
            h.wf(),
            h.spec_hooks(HookEvent::Done) == self.spec_hooks(HookEvent::Done).insert(
                key@,
                systems_of(self.spec_hooks(HookEvent::Done), key@).push(system),
            ),
            h.spec_hooks(HookEvent::Enter) == self.spec_hooks(HookEvent::Enter),
            h.spec_hooks(HookEvent::Exit) == self.spec_hooks(HookEvent::Exit),
    {
        let mut h = self;
        add_hook(&mut h.done, key, system);
        h
    }

    /// Adds `system` to run when the animation leaves `key`.
    pub fn on_exit(self, key: String, system: S) -> (h: Self)
        requires
            self.wf(),
        ensures
            h.wf(),
            h.spec_hooks(HookEvent::Exit) == self.spec_hooks(HookEvent::Exit).insert(
                key@,
                systems_of(self.spec_hooks(HookEvent::Exit), key@).push(system),
            ),
            h.spec_hooks(HookEvent::Enter) == self.spec_hooks(HookEvent::Enter),
            h.spec_hooks(HookEvent::Done) == self.spec_hooks(HookEvent::Done),
    {
        let mut h = self;
        add_hook(&mut h.exit, key, system);
        h
    }

    /// Whether any system runs on `event` (an observer is needed only then).
    pub fn has_hooks(&self, event: HookEvent) -> (b: bool)
        requires
            self.wf(),
        ensures
            b == (self.spec_hooks(event).dom().len() > 0),
    {
        proof {
            lemma_hooks_map_len(self.enter@);
            lemma_hooks_map_len(self.done@);
            lemma_hooks_map_len(self.exit@);
        }
        match event {
            HookEvent::Enter => self.enter.len() > 0,
            HookEvent::Done => self.done.len() > 0,
            HookEvent::Exit => self.exit.len() > 0,
        }
    }

    /// The hook that switches the animation to `key`, resetting the time spent on the frame when
    /// `reset_duration` holds.
    pub fn set(key: String, reset_duration: bool) -> (a: HookAction)
        ensures
            a matches HookAction::SetKey(k) && k.spec_key() == key@ && k.spec_reset_duration() == reset_duration
                && k.spec_fire_exit(),
    {
        HookAction::SetKey(AnimateKey::new(key, reset_duration))
    }

    /// The hook that despawns the animated entity.
    pub fn despawn() -> (a: HookAction)
        ensures
            a == HookAction::Despawn,
    {
        HookAction::Despawn
    }
}

impl<S> AnimationHooks<S> {
    /// The systems to run, in order, when the animation enters, finishes or leaves `key`
    /// (`None` when there are none).
    pub fn hooks(&self, event: HookEvent, key: &str) -> (v: Option<&Vec<S>>)
        requires
            self.wf(),
        ensures
            match v {
                Some(list) => self.spec_hooks(event).contains_key(key@) && list@ == self.spec_hooks(event)[key@],
                None => !self.spec_hooks(event).contains_key(key@),
            },
    {
        let list = match event {
            HookEvent::Enter => &self.enter,
            HookEvent::Done => &self.done,
            HookEvent::Exit => &self.exit,
        };
        assert(distinct_tags(list@));
        assert(hooks_map(list@) == self.spec_hooks(event));
        match find_tag(list, key) {
            Some(j) => {
                proof {
                    lemma_hooks_map_entry(list@, j as int);
                }
                Some(&list[j].1)
            },
            None => {
                proof {
                    lemma_hooks_map_absent(list@, key@);
                }
                None
            },
        }
    }
}

impl AnimationHooks<HookAction> {
    /// Hooks that despawn the animated entity once it finishes `key`.
    pub fn despawn_on_done(key: String) -> (h: Self)
        ensures
            h.wf(),
            h.spec_hooks(HookEvent::Done) == Map::<Seq<char>, Seq<HookAction>>::empty().insert(key@, seq![HookAction::Despawn]),
            h.spec_hooks(HookEvent::Enter) == Map::<Seq<char>, Seq<HookAction>>::empty(),
            h.spec_hooks(HookEvent::Exit) == Map::<Seq<char>, Seq<HookAction>>::empty(),
    {
        let h = Self::new();
        let r = h.on_done(key, HookAction::Despawn);
        proof {
            assert(systems_of(Map::<Seq<char>, Seq<HookAction>>::empty(), key@) =~= Seq::<HookAction>::empty());
            assert(Seq::<HookAction>::empty().push(HookAction::Despawn) =~= seq![HookAction::Despawn]);
        }
        r
    }
}

} // verus!
