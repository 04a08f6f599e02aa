//! Pointer interaction with the pet: telling a single click from a double
//! click, when a greeting may start, and when a click greeting falls back to
//! the local line. Times are milliseconds of a monotonic clock.
use vstd::prelude::*;

use crate::runtime::{elapsed_ms, GreetingConfig, MINUTE_MS};

verus! {

/// Two clicks at most this far apart form a double click.
pub const DOUBLE_CLICK_MS: u64 = 320;

/// How long a click greeting waits for the model before the local line shows.
pub const CLICK_FALLBACK_MS: u64 = 700;

/// Clicks on the pet that are not yet resolved.
#[derive(Debug, Clone, Copy, PartialEq, Eq, Structural)]
pub struct ClickState {
    /// When the click waiting for a possible second one happened.
    pub last_click_at: Option<u64>,
    /// A single click waits to be confirmed.
    pub pending_single_click: bool,
}

/// What a click turned out to be.
#[derive(Debug, Clone, Copy, PartialEq, Eq, Structural)]
pub enum ClickKind {
    /// The first click of a possible pair; it waits.
    Pending,
    /// The second click of a pair.
    Double,
}

/// The second click comes soon enough after the first.
pub open spec fn within_double_click(last: Option<u64>, now: u64) -> bool {
    last matches Some(t) && elapsed_ms(now, t) <= DOUBLE_CLICK_MS
}

/// The state after a click at `now`, and what the click was.
pub open spec fn after_click(c: ClickState, now: u64) -> (ClickState, ClickKind) {
    if within_double_click(c.last_click_at, now) {
        (ClickState { last_click_at: None, pending_single_click: false }, ClickKind::Double)
    } else {
        (ClickState { last_click_at: Some(now), pending_single_click: true }, ClickKind::Pending)
    }
}

/// The state after resolving waiting clicks at `now`, and whether a single
/// click fires: it does once no second click came within the window.
pub open spec fn after_settle(c: ClickState, now: u64) -> (ClickState, bool) {
    if !c.pending_single_click {
        (c, false)
    } else {
        match c.last_click_at {
            Some(t) => if elapsed_ms(now, t) >= DOUBLE_CLICK_MS {
                (ClickState { last_click_at: None, pending_single_click: false }, true)
            } else {
                (c, false)
            },
            None => (ClickState { pending_single_click: false, ..c }, false),
        }
    }
}

/// How soon the pet window must look at its clicks again, in milliseconds:
/// when a single click waits, the time left in the window (at least 1).
pub open spec fn click_deadline_spec(c: ClickState, now: u64) -> Option<u64> {
    if !c.pending_single_click {
        None
    } else {
        match c.last_click_at {
            Some(t) => {
                let left = t + DOUBLE_CLICK_MS - now;
                Some(
                    if t + DOUBLE_CLICK_MS > u64::MAX || left < 1 {
                        1
                    } else {
                        left as u64
                    },
                )
            },
            None => Some(1),
        }
    }
}

impl ClickState {
    /// No click waiting.
    pub fn new() -> (r: Self)
        ensures
            r == (ClickState { last_click_at: None, pending_single_click: false }),
    {
        ClickState { last_click_at: None, pending_single_click: false }
    }

    /// Register a click at `now`: the second of two clicks within
    /// [`DOUBLE_CLICK_MS`] is a double click and clears the state; any
    /// other click waits as a possible single click.
    pub fn register_click(&mut self, now: u64) -> (r: ClickKind)
        ensures
            (*final(self), r) == after_click(*old(self), now),
    {
        let is_double = match self.last_click_at {
            Some(last) => if now >= last {
                now - last <= DOUBLE_CLICK_MS
            } else {
                true
            },
            None => false,
        };
        if is_double {
            self.last_click_at = None;
            self.pending_single_click = false;
            ClickKind::Double
        } else {
            self.last_click_at = Some(now);
            self.pending_single_click = true;
            ClickKind::Pending
        }
    }

    /// Resolve a waiting click at `now`; returns whether it fires as a
    /// single click.
    pub fn settle(&mut self, now: u64) -> (fired: bool)
        ensures
            (*final(self), fired) == after_settle(*old(self), now),
    {
        if !self.pending_single_click {
            return false;
        }
        match self.last_click_at {
            Some(last) => {
                let elapsed: u64 = if now >= last {
                    now - last
                } else {
                    0
                };
                if elapsed >= DOUBLE_CLICK_MS {
                    self.pending_single_click = false;
                    self.last_click_at = None;
                    true
                } else {
                    false
                }
            },
            None => {
                self.pending_single_click = false;
                false
            },
        }
    }

    /// How soon the clicks must be looked at again (see
    /// [`click_deadline_spec`]).
    pub fn deadline(&self, now: u64) -> (r: Option<u64>)
        ensures
            r == click_deadline_spec(*self, now),
    {
        if !self.pending_single_click {
            return None;
        }
        match self.last_click_at {
            Some(last) => {
                if last > u64::MAX - DOUBLE_CLICK_MS {
                    Some(1)
                } else {
                    let deadline = last + DOUBLE_CLICK_MS;
                    if deadline <= now {
                        Some(1)
                    } else {
                        Some(deadline - now)
                    }
                }
            },
            None => Some(1),
        }
    }
}

/// Two clicks within the window, the first not itself closing a pair, are
/// one double click, and nothing of them is left to fire as a single click.
pub proof fn lemma_quick_pair_is_double(c: ClickState, first: u64, second: u64, later: u64)
    requires
        !within_double_click(c.last_click_at, first),
        first <= second,
        second - first <= DOUBLE_CLICK_MS,
    ensures
        ({
            let (c1, _) = after_click(c, first);
            let (c2, k2) = after_click(c1, second);
            &&& k2 == ClickKind::Double
            &&& !after_settle(c2, later).1
        }),
{
}

/// A waiting click fires at most once.
pub proof fn lemma_single_click_fires_once(c: ClickState, now: u64, later: u64)
    requires
        after_settle(c, now).1,
    ensures
        !after_settle(after_settle(c, now).0, later).1,
{
}

/// A lone click fires as a single click once the window has passed.
pub proof fn lemma_lone_click_fires(c: ClickState, at: u64, now: u64)
    requires
        !within_double_click(c.last_click_at, at),
        at <= now,
        now - at >= DOUBLE_CLICK_MS,
    ensures
        after_click(c, at).1 == ClickKind::Pending,
        after_settle(after_click(c, at).0, now).1,
{
}

/// A greeting may start: a pet is shown, none is pending, and unless it is
/// forced (a click), greetings are enabled and the cooldown since the last
/// one has passed.
pub open spec fn greeting_may_start_spec(
    has_pet: bool,
    force: bool,
    greeting: GreetingConfig,
    last_greeting_at: Option<u64>,
    inflight: bool,
    now: u64,
) -> bool {
    &&& has_pet
    &&& !inflight
    &&& !force ==> greeting.enabled
    &&& (!force && last_greeting_at is Some) ==> elapsed_ms(now, last_greeting_at->0)
        >= greeting.cooldown_minutes * MINUTE_MS
}

/// Whether a greeting (`force` for one a click asks for) may start now.
pub fn greeting_may_start(
    has_pet: bool,
    force: bool,
    greeting: &GreetingConfig,
    last_greeting_at: Option<u64>,
    inflight: bool,
    now: u64,
) -> (r: bool)
    ensures
        r == greeting_may_start_spec(has_pet, force, *greeting, last_greeting_at, inflight, now),
{
    if !has_pet {
        return false;
    }
    if !force && !greeting.enabled {
        return false;
    }
    if !force {
        if let Some(last) = last_greeting_at {
            let elapsed: u64 = if now >= last {
                now - last
            } else {
                0
            };
            let cooldown: u64 = greeting.cooldown_minutes as u64 * MINUTE_MS;
            if elapsed < cooldown {
                return false;
            }
        }
    }
    !inflight
}

/// What the pet window does about a click greeting that waits for the model.
#[derive(Debug, Clone, Copy, PartialEq, Eq, Structural)]
pub enum FallbackStep {
    /// Nothing waits, or the local line already shows.
    Idle,
    /// Show the local line now.
    ShowLocal,
    /// Look again after this many milliseconds.
    WaitMs(u64),
}

/// The step for a click greeting requested at `requested_at` (if any), the
/// local line shown or not, at `now`.
pub open spec fn fallback_step_spec(requested_at: Option<u64>, shown: bool, now: u64) -> FallbackStep {
    match requested_at {
        None => FallbackStep::Idle,
        Some(t) => if shown {
            FallbackStep::Idle
        } else if elapsed_ms(now, t) >= CLICK_FALLBACK_MS {
            FallbackStep::ShowLocal
        } else {
            FallbackStep::WaitMs((CLICK_FALLBACK_MS - elapsed_ms(now, t)) as u64)
        },
    }
}

/// Decide about a click greeting that waits for the model.
pub fn fallback_step(requested_at: Option<u64>, shown: bool, now: u64) -> (r: FallbackStep)
    ensures
        r == fallback_step_spec(requested_at, shown, now),
{
    match requested_at {
        None => FallbackStep::Idle,
        Some(t) => {
            if shown {
                return FallbackStep::Idle;
            }
            let elapsed: u64 = if now >= t {
                now - t
            } else {
                0
            };
            if elapsed >= CLICK_FALLBACK_MS {
                FallbackStep::ShowLocal
            } else {
                FallbackStep::WaitMs(CLICK_FALLBACK_MS - elapsed)
            }
        },
    }
}


// ------------------------------------------------------------------------------------------
// When the pet window repaints
// ------------------------------------------------------------------------------------------
/// Repaint delay with nothing to do.
pub const IDLE_REPAINT_MS: u64 = 1000;

/// Repaint delay while something moves.
pub const ACTIVE_REPAINT_MS: u64 = 16;

/// Repaint delay while the window polls for events or a pending reply.
pub const EVENT_POLL_REPAINT_MS: u64 = 100;

/// Repaint delay while the pointer is polled during a gaze.
pub const GAZE_POINTER_POLL_REPAINT_MS: u64 = 40;

/// What the repaint delay depends on. Times are milliseconds of a monotonic
/// clock.
#[derive(Debug, Clone, Copy, PartialEq, Eq, Structural)]
pub struct RepaintInputs {
    /// Something moves: a drag, a walk, an open menu, the conversation's
    /// entry or exit, a scale change, a fall, the shadow's hover morph, a
    /// gaze turning, a pending settings focus, or a bubble's entry.
    pub animating: bool,
    /// Time to the shown pet's next animation frame; `None` when no pet is
    /// shown.
    pub pet_frame_ms: Option<u64>,
    /// Whether the window polls the pointer (shown pet, settings closed, no
    /// event-driven mouse), and then whether a gaze is active.
    pub pointer_poll: Option<bool>,
    /// A greeting request waits for the model.
    pub greeting_inflight: bool,
    /// When the shown bubble ends, if the pet and a bubble are shown.
    pub bubble_until: Option<u64>,
    /// When the health snapshot was last published.
    pub last_health_at: u64,
}

pub open spec fn min_u64(a: u64, b: u64) -> u64 {
    if b < a {
        b
    } else {
        a
    }
}

/// Time left until `deadline`, at least 1 ms.
pub open spec fn left_until(deadline: u64, now: u64) -> u64 {
    if deadline > now {
        (deadline - now) as u64
    } else {
        1
    }
}

/// The repaint delay: the shortest of the idle delay and each delay that
/// applies — the active delay while something moves, the pet's next frame,
/// the pointer poll (faster during a gaze), the event poll while a greeting
/// is pending, a waiting click's deadline, the bubble's end, and one second
/// after the last health snapshot.
pub open spec fn repaint_after_spec(i: RepaintInputs, clicks: ClickState, now: u64) -> u64 {
    let a = IDLE_REPAINT_MS;
    let a = if i.animating {
        min_u64(a, ACTIVE_REPAINT_MS)
    } else {
        a
    };
    let a = match i.pet_frame_ms {
        Some(ms) => min_u64(a, ms),
        None => a,
    };
    let a = match i.pointer_poll {
        Some(gaze) => min_u64(
            a,
            if gaze {
                GAZE_POINTER_POLL_REPAINT_MS
            } else {
                EVENT_POLL_REPAINT_MS
            },
        ),
        None => a,
    };
    let a = if i.greeting_inflight {
        min_u64(a, EVENT_POLL_REPAINT_MS)
    } else {
        a
    };
    let a = match click_deadline_spec(clicks, now) {
        Some(ms) => min_u64(a, ms),
        None => a,
    };
    let a = match i.bubble_until {
        Some(t) => min_u64(a, left_until(t, now)),
        None => a,
    };
    let health = if i.last_health_at > u64::MAX - 1000 {
        1
    } else {
        left_until((i.last_health_at + 1000) as u64, now)
    };
    min_u64(a, health)
}

fn min_exec(a: u64, b: u64) -> (r: u64)
    ensures
        r == min_u64(a, b),
{
    if b < a {
        b
    } else {
        a
    }
}

fn left_until_exec(deadline: u64, now: u64) -> (r: u64)
    ensures
        r == left_until(deadline, now),
{
    if deadline > now {
        deadline - now
    } else {
        1
    }
}

/// How long the pet window waits before it repaints (see
/// [`repaint_after_spec`]).
pub fn repaint_after(i: &RepaintInputs, clicks: &ClickState, now: u64) -> (r: u64)
    ensures
        r == repaint_after_spec(*i, *clicks, now),
        1 <= r <= IDLE_REPAINT_MS || (i.pet_frame_ms == Some(0u64) && r == 0),
{
    let mut a = IDLE_REPAINT_MS;
    if i.animating {
        a = min_exec(a, ACTIVE_REPAINT_MS);
    }
    if let Some(ms) = i.pet_frame_ms {
        a = min_exec(a, ms);
    }
    if let Some(gaze) = i.pointer_poll {
        a = min_exec(
            a,
            if gaze {
                GAZE_POINTER_POLL_REPAINT_MS
            } else {
                EVENT_POLL_REPAINT_MS
            },
        );
    }
    if i.greeting_inflight {
        a = min_exec(a, EVENT_POLL_REPAINT_MS);
    }
    if let Some(ms) = clicks.deadline(now) {
        a = min_exec(a, ms);
    }
    if let Some(t) = i.bubble_until {
        a = min_exec(a, left_until_exec(t, now));
    }
    let health = if i.last_health_at > u64::MAX - 1000 {
        1
    } else {
        left_until_exec(i.last_health_at + 1000, now)
    };
    min_exec(a, health)
}

} // verus!
