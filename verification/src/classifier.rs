//! The press classifier: one small state machine per device that turns raw presses into
//! single and double presses.
//!
//! Time is a count of milliseconds on a monotonic clock that the caller reads. A press
//! that follows the last one of the same device by less than the debounce floor is a
//! second sighting of the same physical press and is dropped. A press that follows by
//! less than the double-press window counts up; any later one starts again at one.
use vstd::prelude::*;
use std::collections::HashMap;
use crate::identity::DeviceIdentity;
use crate::types::TriggerType;

verus! {

/// The longest gap between two presses that still makes a double press.
pub const DOUBLE_PRESS_WINDOW_MS: u64 = 400;

/// The gap below which two sightings are one press.
pub const DEBOUNCE_FLOOR_MS: u64 = 20;

/// Which source saw a press.
#[derive(Debug, Clone, Copy, PartialEq, Eq, Structural)]
pub enum EventOrigin {
    RawInput,
    HidPoll,
}

/// One press as a source reports it.
#[derive(Debug)]
pub struct DeviceEvent {
    pub identity: DeviceIdentity,
    pub origin: EventOrigin,
    pub observed_at: u64,
}

/// One press after classification.
#[derive(Debug)]
pub struct TriggeredEvent {
    pub identity: DeviceIdentity,
    pub trigger: TriggerType,
    pub observed_at: u64,
}

/// What the classifier remembers of one device.
#[derive(Debug, Clone, Copy, PartialEq, Eq, Structural)]
pub struct PressState {
    pub last_press_at: u64,
    pub consecutive_count: u32,
}

/// The time from `last` to `now`, zero where the clock seems to have run backwards.
pub open spec fn elapsed(now: u64, last: u64) -> int {
    if now >= last {
        now - last
    } else {
        0
    }
}

/// One more than `count`, held at the largest `u32`.
pub open spec fn count_up(count: u32) -> u32 {
    if count < u32::MAX {
        (count + 1) as u32
    } else {
        count
    }
}

/// The state of a device after a press at `now`, or `None` where the press is dropped
/// and the state stays as it was.
pub open spec fn next_state(prev: Option<PressState>, now: u64, window: u64, debounce: u64) -> Option<
    PressState,
> {
    match prev {
        None => Some(PressState { last_press_at: now, consecutive_count: 1 }),
        Some(s) => {
            if elapsed(now, s.last_press_at) < debounce {
                None
            } else if elapsed(now, s.last_press_at) < window && s.consecutive_count >= 1 {
                Some(
                    PressState {
                        last_press_at: now,
                        consecutive_count: count_up(s.consecutive_count),
                    },
                )
            } else {
                Some(PressState { last_press_at: now, consecutive_count: 1 })
            }
        },
    }
}

/// The trigger that a press with the given count is.
pub open spec fn trigger_of(count: u32) -> TriggerType {
    if count >= 2 {
        TriggerType::DoublePress
    } else {
        TriggerType::SinglePress
    }
}

/// The state of a device after a double press has fired its action: the count starts
/// over, the time of the last press stays.
pub open spec fn after_dispatch(s: PressState) -> PressState {
    PressState { last_press_at: s.last_press_at, consecutive_count: 0 }
}

/// A press inside the window, and not debounced, counts one up from the press before
/// it, and is therefore a double press. (The count stops at the largest `u32`.)
pub proof fn lemma_press_within_window(
    prev: Option<PressState>,
    first_at: u64,
    second_at: u64,
    window: u64,
    debounce: u64,
)
    requires
        next_state(prev, first_at, window, debounce) is Some,
        debounce <= elapsed(second_at, first_at) < window,
        next_state(prev, first_at, window, debounce)->0.consecutive_count < u32::MAX,
    ensures
        ({
            let s1 = next_state(prev, first_at, window, debounce)->0;
            let s2 = next_state(Some(s1), second_at, window, debounce);
            &&& s2 is Some
            &&& s2->0.consecutive_count == s1.consecutive_count + 1
            &&& s2->0.last_press_at == second_at
            &&& trigger_of(s2->0.consecutive_count) == TriggerType::DoublePress
        }),
{
}

/// The same of any remembered state: inside the window and past the debounce floor the
/// count goes up by one, also from zero.
pub proof fn lemma_count_within_window(s1: PressState, now: u64, window: u64, debounce: u64)
    requires
        debounce <= elapsed(now, s1.last_press_at) < window,
        s1.consecutive_count < u32::MAX,
    ensures
        next_state(Some(s1), now, window, debounce) == Some(
            PressState {
                last_press_at: now,
                consecutive_count: (s1.consecutive_count + 1) as u32,
            },
        ),
{
}

/// A press at or beyond the window starts again at one, and is a single press.
pub proof fn lemma_press_beyond_window(s1: PressState, now: u64, window: u64, debounce: u64)
    requires
        debounce <= window,
        elapsed(now, s1.last_press_at) >= window,
    ensures
        next_state(Some(s1), now, window, debounce) == Some(
            PressState { last_press_at: now, consecutive_count: 1 },
        ),
        trigger_of(1) == TriggerType::SinglePress,
{
}

/// After a double press has fired, the next press that is not debounced is a single
/// press, however soon it comes.
pub proof fn lemma_press_after_dispatch(s: PressState, now: u64, window: u64, debounce: u64)
    requires
        debounce <= elapsed(now, s.last_press_at),
    ensures
        next_state(Some(after_dispatch(s)), now, window, debounce) == Some(
            PressState { last_press_at: now, consecutive_count: 1 },
        ),
        trigger_of(1) == TriggerType::SinglePress,
{
}

/// A press below the debounce floor changes nothing and emits nothing.
pub proof fn lemma_press_debounced(s: PressState, now: u64, window: u64, debounce: u64)
    requires
        elapsed(now, s.last_press_at) < debounce,
    ensures
        next_state(Some(s), now, window, debounce) is None,
{
}

/// No press is classified as a long press, and every emitted press has a count of at
/// least one.
pub proof fn lemma_emitted_count(prev: Option<PressState>, now: u64, window: u64, debounce: u64)
    requires
        next_state(prev, now, window, debounce) is Some,
    ensures
        next_state(prev, now, window, debounce)->0.consecutive_count >= 1,
        next_state(prev, now, window, debounce)->0.last_press_at == now,
        trigger_of(next_state(prev, now, window, debounce)->0.consecutive_count)
            != TriggerType::LongPress,
{
}

/// The two tunables of a classifier, in milliseconds.
struct Tunables {
    double_window_ms: u64,
    debounce_ms: u64,
}

impl Tunables {
    /// The debounce floor never exceeds the window.
    #[verifier::type_invariant]
    spec fn well_formed(&self) -> bool {
        self.debounce_ms <= self.double_window_ms
    }
}

/// The classifier: the press state of every device seen so far, and the two tunables.
pub struct Classifier {
    states: HashMap<u32, PressState>,
    tunables: Tunables,
}

impl Classifier {
    /// What is remembered of the device with the given numbers.
    pub closed spec fn state_of(&self, vendor_id: u16, product_id: u16) -> Option<PressState> {
        let k = DeviceIdentity::key_of(vendor_id, product_id);
        if self.states@.contains_key(k) {
            Some(self.states@[k])
        } else {
            None
        }
    }

    /// The double-press window in milliseconds.
    pub closed spec fn window(&self) -> u64 {
        self.tunables.double_window_ms
    }

    /// The debounce floor in milliseconds.
    pub closed spec fn debounce(&self) -> u64 {
        self.tunables.debounce_ms
    }

    /// Whether the two classifiers differ at most in what they remember of the device
    /// with the given numbers.
    pub open spec fn same_but(&self, other: &Classifier, vendor_id: u16, product_id: u16) -> bool {
        &&& self.window() == other.window()
        &&& self.debounce() == other.debounce()
        &&& forall|v: u16, p: u16|
            (v, p) != (vendor_id, product_id) ==> #[trigger] self.state_of(v, p)
                == other.state_of(v, p)
    }

    /// A classifier that has seen nothing, with the standard window and debounce floor.
    pub fn new() -> (r: Self)
        ensures
            r.window() == DOUBLE_PRESS_WINDOW_MS,
            r.debounce() == DEBOUNCE_FLOOR_MS,
            forall|v: u16, p: u16| r.state_of(v, p) is None,
    {
        Classifier {
            states: HashMap::new(),
            tunables: Tunables {
                double_window_ms: DOUBLE_PRESS_WINDOW_MS,
                debounce_ms: DEBOUNCE_FLOOR_MS,
            },
        }
    }

    /// A classifier that has seen nothing, with a window and a debounce floor of the
    /// caller's choice; `None` where the floor exceeds the window.
    pub fn with_tunables(double_window_ms: u64, debounce_ms: u64) -> (r: Option<Self>)
        ensures
            r is Some <==> debounce_ms <= double_window_ms,
            r matches Some(c) ==> {
                &&& c.window() == double_window_ms
                &&& c.debounce() == debounce_ms
                &&& forall|v: u16, p: u16| c.state_of(v, p) is None
            },
    {
        if debounce_ms <= double_window_ms {
            Some(
                Classifier {
                    states: HashMap::new(),
                    tunables: Tunables { double_window_ms, debounce_ms },
                },
            )
        } else {
            None
        }
    }

    /// The window and the debounce floor, in milliseconds; the floor never exceeds the
    /// window.
    pub fn tunables(&self) -> (r: (u64, u64))
        ensures
            r == (self.window(), self.debounce()),
            self.debounce() <= self.window(),
    {
        proof {
            use_type_invariant(&self.tunables);
        }
        (self.tunables.double_window_ms, self.tunables.debounce_ms)
    }

    /// What is remembered of a device.
    pub fn press_state(&self, identity: &DeviceIdentity) -> (r: Option<PressState>)
        ensures
            r == self.state_of(identity.vendor_id, identity.product_id),
    {
        match self.states.get(&identity.key()) {
            Some(s) => Some(*s),
            None => None,
        }
    }

    /// Takes one raw press. Where the press is not debounced, the device's state moves
    /// on and the classified press is handed out; where it is, nothing changes and
    /// nothing is handed out. What is remembered of other devices never changes.
    pub fn observe(&mut self, event: DeviceEvent) -> (r: Option<TriggeredEvent>)
        ensures
            final(self).same_but(old(self), event.identity.vendor_id, event.identity.product_id),
            ({
                let v = event.identity.vendor_id;
                let p = event.identity.product_id;
                let step = next_state(
                    old(self).state_of(v, p),
                    event.observed_at,
                    old(self).window(),
                    old(self).debounce(),
                );
                match step {
                    None => r is None && final(self).state_of(v, p) == old(self).state_of(v, p),
                    Some(s) => {
                        &&& final(self).state_of(v, p) == Some(s)
                        &&& r matches Some(t)
                        &&& t.identity == event.identity
                        &&& t.trigger == trigger_of(s.consecutive_count)
                        &&& t.observed_at == event.observed_at
                    },
                }
            }),
    {
        let k = event.identity.key();
        let now = event.observed_at;
        let next = match self.states.get(&k) {
            None => PressState { last_press_at: now, consecutive_count: 1 },
            Some(s) => {
                let gap: u64 = if now >= s.last_press_at {
                    now - s.last_press_at
                } else {
                    0
                };
                if gap < self.tunables.debounce_ms {
                    return None;
                }
                if gap < self.tunables.double_window_ms && s.consecutive_count >= 1 {
                    let count: u32 = if s.consecutive_count < u32::MAX {
                        s.consecutive_count + 1
                    } else {
                        s.consecutive_count
                    };
                    PressState { last_press_at: now, consecutive_count: count }
                } else {
                    PressState { last_press_at: now, consecutive_count: 1 }
                }
            },
        };
        self.states.insert(k, next);
        let trigger = if next.consecutive_count >= 2 {
            TriggerType::DoublePress
        } else {
            TriggerType::SinglePress
        };
        proof {
            lemma_key_injective();
        }
        Some(TriggeredEvent { identity: event.identity, trigger, observed_at: now })
    }

    /// Records that the action bound to a classified press has fired. After a double
    /// press the device's count starts over; after any other press nothing changes.
    pub fn action_fired(&mut self, event: &TriggeredEvent)
        ensures
            final(self).same_but(old(self), event.identity.vendor_id, event.identity.product_id),
            ({
                let v = event.identity.vendor_id;
                let p = event.identity.product_id;
                match old(self).state_of(v, p) {
                    Some(s) if event.trigger == TriggerType::DoublePress => final(self).state_of(
                        v,
                        p,
                    ) == Some(after_dispatch(s)),
                    _ => final(self).state_of(v, p) == old(self).state_of(v, p),
                }
            }),
    {
        proof {
            lemma_key_injective();
        }
        if event.trigger == TriggerType::DoublePress {
            let k = event.identity.key();
            let found = match self.states.get(&k) {
                Some(s) => Some(*s),
                None => None,
            };
            if let Some(s) = found {
                self.states.insert(
                    k,
                    PressState { last_press_at: s.last_press_at, consecutive_count: 0 },
                );
            }
        }
    }
}

/// Different devices have different keys.
pub proof fn lemma_key_injective()
    ensures
        forall|va: u16, pa: u16, vb: u16, pb: u16|
            #[trigger] DeviceIdentity::key_of(va, pa) == #[trigger] DeviceIdentity::key_of(vb, pb)
                ==> va == vb && pa == pb,
{
}

} // verus!
