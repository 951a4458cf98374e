use vstd::prelude::*;

use crate::time::{Duration, DURATION_MAX};

verus! {

/// What a grounded character is doing.
#[derive(Debug, Clone, Copy, PartialEq, Eq, Structural, Default)]
pub enum GroundControlState {
    #[default]
    Idle,
    Run {
        /// Whether the character is trying to stop and go idle.
        decelerating: bool,
    },
    Hover {
        /// Whether the character is trying to move sideways in the air.
        steering: bool,
    },
    Jump,
}

/// What a grounded character was doing before its current state.
#[derive(Debug, Clone, Copy, PartialEq, Eq, Structural, Default)]
pub struct GroundControlStatePrevious(pub GroundControlState);

/// Which way a grounded character faces.
#[derive(Debug, Clone, Copy, PartialEq, Eq, Structural, Default)]
pub enum GroundControlDirection {
    #[default]
    Right,
    Left,
}

/// The last contact on one side: when it was made, and the velocity of what was touched.
#[derive(Debug, Clone, Copy, PartialEq, Eq)]
pub struct GroundContact<V> {
    pub since: Duration,
    pub linear_velocity: Option<V>,
}

/// The last contacts of a grounded character on its left, right, lower and upper side.
#[derive(Debug, Clone, Copy, PartialEq, Eq)]
pub struct GroundContacts<V>(pub [Option<GroundContact<V>>; 4]);

/// The side of a contact.
pub const LEFT: usize = 0;

pub const RIGHT: usize = 1;

pub const DOWN: usize = 2;

pub const UP: usize = 3;

/// A contact still counts at `now` when it was made no later than `now` and at most `tolerance`
/// before it.
pub open spec fn contact_recent<V>(c: Option<GroundContact<V>>, now: Duration, tolerance: Duration) -> bool {
    match c {
        Some(contact) => contact.since <= now && now - contact.since <= tolerance,
        None => false,
    }
}

impl<V: Copy> GroundContacts<V> {
    /// No contacts at all.
    pub fn empty() -> (c: Self)
        ensures
            forall|i: int| 0 <= i < 4 ==> c.0@[i] is None,
    {
        GroundContacts([None, None, None, None])
    }

    /// Whether the side `index` is in contact at `now`, allowing `tolerance` since the contact.
    pub fn is_touching(self, index: usize, now: Duration, tolerance: Duration) -> (b: bool)
        requires
            index < 4,
        ensures
            b == contact_recent(self.0@[index as int], now, tolerance),
    {
        match self.0[index] {
            Some(contact) => contact.since <= now && now - contact.since <= tolerance,
            None => false,
        }
    }

    /// If the lower side is in contact at `now` (allowing `tolerance`), the velocity of the
    /// ground (`zero` when unknown).
    pub fn is_grounded(self, now: Duration, tolerance: Duration, zero: V) -> (r: Option<V>)
        ensures
            r is Some == contact_recent(self.0@[DOWN as int], now, tolerance),
            r is Some ==> r == Some(match self.0@[DOWN as int]->0.linear_velocity {
                Some(v) => v,
                None => zero,
            }),
    {
        match self.0[DOWN] {
            Some(contact) => {
                if contact.since <= now && now - contact.since <= tolerance {
                    Some(match contact.linear_velocity {
                        Some(v) => v,
                        None => zero,
                    })
                } else {
                    None
                }
            },
            None => None,
        }
    }

    /// Whether the upper side is in contact at `now`.
    pub fn is_head_bumping(self, now: Duration, tolerance: Duration) -> (b: bool)
        ensures
            b == contact_recent(self.0@[UP as int], now, tolerance),
    {
        self.is_touching(UP, now, tolerance)
    }

    /// Whether the left and the right side are in contact at `now`.
    pub fn is_clinging(self, now: Duration, tolerance: Duration) -> (b: [bool; 2])
        ensures
            b@[0] == contact_recent(self.0@[LEFT as int], now, tolerance),
            b@[1] == contact_recent(self.0@[RIGHT as int], now, tolerance),
    {
        [self.is_touching(LEFT, now, tolerance), self.is_touching(RIGHT, now, tolerance)]
    }

    /// Forgets the contact on the lower side (so that a jump can't be repeated mid-air).
    pub fn clear_ground(&mut self)
        ensures
            final(self).0@[DOWN as int] is None,
            forall|i: int| 0 <= i < 4 && i != DOWN ==> final(self).0@[i] == old(self).0@[i],
    {
        self.0[DOWN] = None;
    }
}

/// Whether a grounded character wants to move, and along what axis.
#[derive(Debug, Clone, Copy, PartialEq, Eq)]
pub enum GroundMoveState<V> {
    Still,
    Moving(V),
}

impl<V: Copy> GroundMoveState<V> {
    /// The axis of the movement, or `zero` when still.
    pub fn as_axis(&self, zero: V) -> (v: V)
        ensures
            v == match *self {
                GroundMoveState::Still => zero,
                GroundMoveState::Moving(a) => a,
            },
    {
        match *self {
            GroundMoveState::Still => zero,
            GroundMoveState::Moving(axis) => axis,
        }
    }

    /// Whether the character wants to move.
    pub fn is_moving(self) -> (b: bool)
        ensures
            b == self is Moving,
    {
        match self {
            GroundMoveState::Moving(..) => true,
            GroundMoveState::Still => false,
        }
    }
}

/// The moving state after a frame: moving along `axis` while the movement action fires, still
/// otherwise.
pub fn ground_move<V: Copy>(fired: bool, axis: V) -> (s: GroundMoveState<V>)
    ensures
        s == (if fired {
            GroundMoveState::Moving(axis)
        } else {
            GroundMoveState::Still
        }),
{
    if fired {
        GroundMoveState::Moving(axis)
    } else {
        GroundMoveState::Still
    }
}

/// The jump state after the jump action's events of a frame at `now`: starting the action
/// records when the jump was first tried; completing it forgets the attempt.
pub fn ground_jump<T: Copy>(state: &mut GroundJumpState<T>, started: bool, completed: bool, now: Duration)
    ensures
        final(state).time == old(state).time,
        completed ==> final(state).tried is None && !final(state).acted,
        !completed ==> final(state).acted == old(state).acted && final(state).tried == (if started
            && old(state).tried is None {
            Some(now)
        } else {
            old(state).tried
        }),
{
    if started {
        if state.tried.is_none() {
            state.tried = Some(now);
        }
    }
    if completed {
        state.tried = None;
        state.acted = false;
    }
}

/// The moment to check the ground at for a jump tried at `tried`: no later than the jump's
/// buffer time after the attempt, nor than `now`.
pub fn jump_check_time(tried: Duration, buffer_time: Duration, now: Duration) -> (t: Duration)
    requires
        tried + buffer_time <= DURATION_MAX,
    ensures
        t == (if tried + buffer_time < now {
            tried + buffer_time
        } else {
            now as int
        }),
{
    let t = tried + buffer_time;
    if t < now {
        t
    } else {
        now
    }
}

/// The sign of a number.
#[derive(Debug, Clone, Copy, PartialEq, Eq, Structural)]
pub enum Sign {
    Negative,
    Zero,
    Positive,
}

/// What a frame's movement needs to know of a grounded character that can walk: its moving
/// state, and the facts about the change of horizontal velocity that it asks for (whether that
/// change is negligible, and its sign) and about its walking direction.
#[derive(Debug, Clone, Copy, PartialEq, Eq)]
pub struct GroundMoveInput<V> {
    pub state: GroundMoveState<V>,
    /// Whether the change of velocity asked for is negligible (at most `1e-4`).
    pub target_reached: bool,
    pub target_sign: Sign,
    /// Whether the character walks to the right.
    pub rightward: bool,
}

/// How a walking character accelerates in a frame: with its grounded or its aired acceleration,
/// and whether a wall that it clings to blocks the acceleration.
#[derive(Debug, Clone, Copy, PartialEq, Eq, Structural)]
pub enum GroundMoveStep {
    Grounded { blocked: bool },
    Aired { blocked: bool },
}

/// The grace times of jumping: before landing, and after falling off a platform.
#[derive(Debug, Clone, Copy, PartialEq, Eq, Structural)]
pub struct GroundJumpParams {
    pub buffer_time: Duration,
    pub coyote_time: Duration,
}

impl GroundJumpParams {
    /// A tenth of a second of each.
    pub fn default_params() -> (p: GroundJumpParams)
        ensures
            p.buffer_time == 100_000_000,
            p.coyote_time == 100_000_000,
    {
        GroundJumpParams { buffer_time: 100_000_000, coyote_time: 100_000_000 }
    }
}

/// The state of a character's jump: when it was tried, whether it was carried out, and how long
/// the character has been rising (a quantity that the caller measures).
#[derive(Debug, Clone, Copy, PartialEq, Eq)]
pub struct GroundJumpState<T> {
    pub tried: Option<Duration>,
    pub acted: bool,
    pub time: Option<T>,
}

/// What a frame does to a jump.
#[derive(Debug, Clone, Copy, PartialEq, Eq)]
pub enum GroundJumpStep<V, T> {
    /// Nothing is tried, nothing is rising.
    Rest,
    /// A jump is tried but the character is not on the ground.
    Waiting,
    /// The jump starts from ground moving at the given velocity.
    Launch(V),
    /// The character keeps rising (the caller adds the frame's time to the rising time).
    Rise,
    /// The character bumped its head: the jump is over.
    Bumped,
    /// The jump was released after rising for the given time.
    Release(T),
}

/// The control state after a frame: walking (`movement`) makes a character idle when grounded,
/// still and at its target velocity, running (decelerating unless it moves) when otherwise
/// grounded, and hovering (steering when it moves) in the air; a jump launched or rising (`step`
/// of a jumping character) makes it jumping, which takes precedence; with neither, the state
/// stays.
pub open spec fn ground_next_state<V, T>(
    control: GroundControlState,
    down: Option<GroundContact<V>>,
    now: Duration,
    movement: Option<GroundMoveInput<V>>,
    jump: Option<GroundJumpParams>,
    step: Option<GroundJumpStep<V, T>>,
) -> GroundControlState {
    let walk = match movement {
        Some(m) => Some(
            if contact_recent(down, now, 0) {
                if m.state is Still && m.target_reached {
                    GroundControlState::Idle
                } else {
                    GroundControlState::Run { decelerating: !(m.state is Moving) }
                }
            } else {
                GroundControlState::Hover { steering: m.state is Moving }
            },
        ),
        None => None,
    };
    let after_walk = match walk {
        Some(s) => s,
        None => control,
    };
    let jumping = match jump {
        Some(p) => match step {
            Some(GroundJumpStep::Launch(_)) => true,
            Some(GroundJumpStep::Rise) => true,
            _ => false,
        },
        None => false,
    };
    if jumping {
        GroundControlState::Jump
    } else {
        after_walk
    }
}

/// The facing direction after a frame: an explicit movement turns the character the way it
/// walks; otherwise the direction stays.
pub open spec fn ground_next_direction<V>(direction: GroundControlDirection, movement: Option<GroundMoveInput<V>>) -> GroundControlDirection {
    match movement {
        Some(m) => if m.state is Moving {
            if m.rightward {
                GroundControlDirection::Right
            } else {
                GroundControlDirection::Left
            }
        } else {
            direction
        },
        None => direction,
    }
}

/// A frame with neither walking nor jumping leaves the control state as it is (and so records
/// no previous state), and only an explicit movement turns a character, to the side it walks.
/// A grounded character that walks (its movement state is moving) runs without decelerating
/// unless it jumps; it becomes idle only when still at its target velocity.
pub proof fn law_ground_rest_and_turning<V, T>(
    control: GroundControlState,
    down: Option<GroundContact<V>>,
    now: Duration,
    direction: GroundControlDirection,
    movement: Option<GroundMoveInput<V>>,
    jump: Option<GroundJumpParams>,
    step: Option<GroundJumpStep<V, T>>,
)
    ensures
        movement is None && jump is None ==> ground_next_state(control, down, now, movement, jump, step) == control,
        movement matches Some(m) && m.state is Moving && contact_recent(down, now, 0) && jump is None ==> ground_next_state(
            control,
            down,
            now,
            movement,
            jump,
            step,
        ) == (GroundControlState::Run { decelerating: false }),
        ground_next_state(control, down, now, movement, jump, step) == GroundControlState::Idle && control
            != GroundControlState::Idle ==> (movement matches Some(m) && m.state is Still && m.target_reached
            && contact_recent(down, now, 0)),
        ground_next_direction(direction, movement) != direction ==> (movement matches Some(m) && m.state is Moving
            && ground_next_direction(direction, movement) == (if m.rightward {
            GroundControlDirection::Right
        } else {
            GroundControlDirection::Left
        })),
{
}

/// One frame of a grounded character's control at `now`.
///
/// A walking character (`movement`) is idle when grounded, still and at its target velocity,
/// running (decelerating unless it moves) when otherwise grounded, and hovering (steering when
/// it moves) in the air; its acceleration is blocked while it pushes against a wall it clings
/// to, and only an explicit movement turns it. A jumping character (`jump`) jumps when a tried
/// jump finds ground (at the latest a buffer time after the attempt, with the coyote time as
/// grace), which forgets the ground contact; it keeps jumping while the jump lasts unless it
/// bumps its head, which ends the jump; a released jump hands back its rising time. Jumping
/// takes precedence over the walking state. The previous state is recorded when the state
/// changes.
pub fn evaluate_ground<V: Copy, T: Copy>(
    control: &mut GroundControlState,
    previous: &mut GroundControlStatePrevious,
    direction: &mut GroundControlDirection,
    contacts: &mut GroundContacts<V>,
    movement: Option<GroundMoveInput<V>>,
    jump: Option<GroundJumpParams>,
    jump_state: &mut GroundJumpState<T>,
    now: Duration,
    zero: V,
    zero_time: T,
) -> (r: (Option<GroundMoveStep>, Option<GroundJumpStep<V, T>>))
    requires
        jump is Some && old(jump_state).tried is Some && !old(jump_state).acted ==> old(
            jump_state,
        ).tried->0 + jump->0.buffer_time <= DURATION_MAX,
    ensures
        *final(control) == ground_next_state(*old(control), old(contacts).0@[DOWN as int], now, movement, jump, r.1),
        *final(previous) == (if *final(control) != *old(control) {
            GroundControlStatePrevious(*old(control))
        } else {
            *old(previous)
        }),
        *final(direction) == ground_next_direction(*old(direction), movement),
        movement matches Some(m) && m.state is Moving && contact_recent(old(contacts).0@[DOWN as int], now, 0) && jump is None
            ==> *final(control) == (GroundControlState::Run { decelerating: false }),
        *final(control) == GroundControlState::Idle && *old(control) != GroundControlState::Idle ==> (movement matches Some(
            m,
        ) && m.state is Still && m.target_reached),
        r.0 == (match movement {
            Some(m) => {
                let c = old(contacts).0@;
                let blocked = (m.target_sign == Sign::Positive && contact_recent(c[RIGHT as int], now, 0))
                    || (m.target_sign == Sign::Negative && contact_recent(c[LEFT as int], now, 0));
                Some(
                    if contact_recent(c[DOWN as int], now, 0) {
                        GroundMoveStep::Grounded { blocked }
                    } else {
                        GroundMoveStep::Aired { blocked }
                    },
                )
            },
            None => None,
        }),
        jump is None ==> r.1 is None && *final(jump_state) == *old(jump_state) && *final(contacts)
            == *old(contacts),
        jump matches Some(p) ==> ({
            let st = *old(jump_state);
            let c = *old(contacts);
            match (st.tried, st.acted) {
                (Some(tried), false) => {
                    let at = if tried + p.buffer_time < now { tried + p.buffer_time } else { now as int };
                    if contact_recent(c.0@[DOWN as int], at as u128, p.coyote_time) {
                        &&& r.1 == Some(GroundJumpStep::<V, T>::Launch(match c.0@[DOWN as int]->0.linear_velocity {
                            Some(v) => v,
                            None => zero,
                        }))
                        &&& *final(jump_state) == GroundJumpState { tried: st.tried, acted: true, time: Some(zero_time) }
                        &&& final(contacts).0@ == c.0@.update(DOWN as int, None)
                    } else {
                        &&& r.1 == Some(GroundJumpStep::<V, T>::Waiting)
                        &&& *final(jump_state) == st
                        &&& *final(contacts) == c
                    }
                },
                (_, true) => {
                    &&& *final(contacts) == c
                    &&& if contact_recent(c.0@[UP as int], now, 0) {
                        &&& r.1 == Some(GroundJumpStep::<V, T>::Bumped)
                        &&& *final(jump_state) == GroundJumpState::<T> { tried: None, acted: false, time: None }
                    } else {
                        &&& r.1 == Some(GroundJumpStep::<V, T>::Rise)
                        &&& *final(jump_state) == GroundJumpState {
                            tried: st.tried,
                            acted: true,
                            time: Some(match st.time { Some(t) => t, None => zero_time }),
                        }
                    }
                },
                (None, false) => {
                    &&& *final(contacts) == c
                    &&& *final(jump_state) == GroundJumpState::<T> { tried: None, acted: false, time: None }
                    &&& r.1 == Some(match st.time {
                        Some(t) => GroundJumpStep::<V, T>::Release(t),
                        None => GroundJumpStep::<V, T>::Rest,
                    })
                },
            }
        }),
{
    let mut next_state = *control;
    let mut next_direction = *direction;
    let mut move_step: Option<GroundMoveStep> = None;
    match movement {
        Some(m) => {
            let grounded = contacts.is_grounded(now, 0, zero);
            let cling = contacts.is_clinging(now, 0);
            let blocked = (m.target_sign == Sign::Positive && cling[1])
                || (m.target_sign == Sign::Negative && cling[0]);
            let moving = m.state.is_moving();
            match grounded {
                Some(_) => {
                    next_state = if !moving && m.target_reached {
                        GroundControlState::Idle
                    } else {
                        GroundControlState::Run { decelerating: !moving }
                    };
                    move_step = Some(GroundMoveStep::Grounded { blocked });
                },
                None => {
                    next_state = GroundControlState::Hover { steering: moving };
                    move_step = Some(GroundMoveStep::Aired { blocked });
                },
            }
            if moving {
                next_direction = if m.rightward {
                    GroundControlDirection::Right
                } else {
                    GroundControlDirection::Left
                };
            }
        },
        None => {},
    }
    let mut jump_step: Option<GroundJumpStep<V, T>> = None;
    match jump {
        Some(p) => {
            match (jump_state.tried, jump_state.acted) {
                (Some(tried), false) => {
                    let at = jump_check_time(tried, p.buffer_time, now);
                    match contacts.is_grounded(at, p.coyote_time, zero) {
                        Some(v) => {
                            contacts.clear_ground();
                            jump_state.acted = true;
                            jump_state.time = Some(zero_time);
                            next_state = GroundControlState::Jump;
                            jump_step = Some(GroundJumpStep::Launch(v));
                        },
                        None => {
                            jump_step = Some(GroundJumpStep::Waiting);
                        },
                    }
                },
                (_, true) => {
                    if contacts.is_head_bumping(now, 0) {
                        jump_state.tried = None;
                        jump_state.acted = false;
                        jump_state.time = None;
                        jump_step = Some(GroundJumpStep::Bumped);
                    } else {
                        next_state = GroundControlState::Jump;
                        if jump_state.time.is_none() {
                            jump_state.time = Some(zero_time);
                        }
                        jump_step = Some(GroundJumpStep::Rise);
                    }
                },
                (None, false) => {
                    let committed = jump_state.time;
                    jump_state.time = None;
                    jump_step = Some(
                        match committed {
                            Some(t) => GroundJumpStep::Release(t),
                            None => GroundJumpStep::Rest,
                        },
                    );
                },
            }
        },
        None => {},
    }
    if next_state != *control {
        *previous = GroundControlStatePrevious(*control);
        *control = next_state;
    }
    *direction = next_direction;
    (move_step, jump_step)
}

} // verus!
