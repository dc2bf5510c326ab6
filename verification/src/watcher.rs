//! The per-key press/velocity state machine.
//!
//! Each scancode owns one state: `Released`, `PressStarted` (travelling, not
//! yet reported), or `PressFired` (reported, waiting for release). A press
//! fires when the key is nearly bottomed out or when it starts moving back up
//! after meaningful travel, whichever comes first; the fired event carries a
//! velocity computed over the whole press, from the first non-zero sample.

use vstd::prelude::*;

use std::collections::HashMap;

use crate::report::ReadKey;

verus! {

broadcast use vstd::std_specs::hash::group_hash_axioms;

/// A key above this value (0.92 of full travel) is nearly bottomed out and
/// fires at once.
pub const THRESHOLD: u16 = 1173;

/// A key moving back up while above this value (0.4 of full travel) has
/// travelled meaningfully and fires early.
pub const THRESHOLD_LOW: u16 = 510;

/// A press whose velocity exceeds this many full travels per second is
/// reported as a shifted keystroke.
pub const CAPS_VELOCITY: u64 = 180;

/// The state of one key.
#[derive(Clone, Copy, PartialEq, Eq, Structural, Debug)]
pub enum KeyState {
    Released,
    PressStarted { start_time: u64, current_value: u16, current_time: u64 },
    PressFired,
}

/// A fired keystroke: its scancode, whether it is to be replayed shifted,
/// and its velocity in thousandths of a full travel per second.
#[derive(Clone, Copy, PartialEq, Eq, Structural, Debug)]
pub struct KeyEvent {
    pub scancode: u16,
    pub caps: bool,
    pub velocity: u64,
}

/// Whether a press at `current_value` fires on the new sample `value`:
/// either the key is nearly bottomed out, or it has started to release
/// after travelling past the lower threshold.
pub open spec fn spec_fire(current_value: u16, value: u16) -> bool {
    value > THRESHOLD || (value < current_value && value > THRESHOLD_LOW)
}

/// Time since the press began; a sample stamped before its own press start
/// counts as no elapsed time.
pub open spec fn spec_elapsed(start_us: u64, now_us: u64) -> int {
    if now_us >= start_us {
        now_us - start_us
    } else {
        0
    }
}

/// Whether the press velocity `value`/1275 per `elapsed_us`/1000000 exceeds
/// `CAPS_VELOCITY` full travels per second, written without division:
/// value*1000000 > 180*1275*elapsed reduced by their common factor 500.
/// An instantaneous press counts as exceeding any threshold.
pub open spec fn spec_caps(value: u16, elapsed_us: int) -> bool {
    if elapsed_us == 0 {
        true
    } else {
        2000 * value > 459 * elapsed_us
    }
}

/// The press velocity in thousandths of a full travel per second, rounded
/// down; an instantaneous press saturates.
pub open spec fn spec_velocity_milli(value: u16, elapsed_us: int) -> u64 {
    if elapsed_us == 0 {
        u64::MAX
    } else {
        (value * 1_000_000_000 / (1275 * elapsed_us)) as u64
    }
}

/// The state a key moves to on one sample.
pub open spec fn spec_step_state(s: KeyState, value: u16, ts_us: u64) -> KeyState {
    match s {
        KeyState::Released => if value > 0 {
            KeyState::PressStarted { start_time: ts_us, current_value: value, current_time: ts_us }
        } else {
            KeyState::Released
        },
        KeyState::PressStarted { start_time, current_value, current_time } => if spec_fire(
            current_value,
            value,
        ) {
            KeyState::PressFired
        } else {
            KeyState::PressStarted { start_time, current_value: value, current_time: ts_us }
        },
        KeyState::PressFired => if value > 0 {
            KeyState::PressFired
        } else {
            KeyState::Released
        },
    }
}

/// The event a key emits on one sample: exactly one per press, at the
/// sample that satisfies the fire condition.
pub open spec fn spec_step_event(s: KeyState, code: u16, value: u16, ts_us: u64) -> Option<
    KeyEvent,
> {
    match s {
        KeyState::PressStarted { start_time, current_value, current_time } => if spec_fire(
            current_value,
            value,
        ) {
            Some(
                KeyEvent {
                    scancode: code,
                    caps: spec_caps(value, spec_elapsed(start_time, ts_us)),
                    velocity: spec_velocity_milli(value, spec_elapsed(start_time, ts_us)),
                },
            )
        } else {
            None
        },
        _ => None,
    }
}

/// A press is reported at most once: the sample that fires moves the key to
/// `PressFired`, and a key in `PressFired` emits nothing and stays there for
/// as long as samples are non-zero; only a zero sample re-arms it, back to
/// `Released`.
pub proof fn lemma_fires_once_per_press(s: KeyState, code: u16, value: u16, ts_us: u64)
    ensures
        spec_step_event(s, code, value, ts_us) is Some ==> s is PressStarted && spec_step_state(
            s,
            value,
            ts_us,
        ) == KeyState::PressFired,
        s == KeyState::PressFired && value > 0 ==> spec_step_event(s, code, value, ts_us) is None
            && spec_step_state(s, value, ts_us) == KeyState::PressFired,
        s == KeyState::PressFired && value == 0 ==> spec_step_event(s, code, value, ts_us) is None
            && spec_step_state(s, value, ts_us) == KeyState::Released,
{
}

/// One reading fed into a table of key states: the sampled key steps, the
/// rest stand.
pub open spec fn spec_feed(states: Map<u16, KeyState>, r: ReadKey) -> Map<u16, KeyState> {
    states.insert(r.code, spec_step_state(states[r.code], r.value, r.ts_us))
}

/// The table of key states after feeding a sequence of readings, in order.
pub open spec fn spec_feed_seq(states: Map<u16, KeyState>, rs: Seq<ReadKey>) -> Map<u16, KeyState>
    decreases rs.len(),
{
    if rs.len() == 0 {
        states
    } else {
        spec_feed_seq(spec_feed(states, rs[0]), rs.drop_first())
    }
}

/// The keystrokes a sequence of readings fires, in firing order.
pub open spec fn spec_feed_events(states: Map<u16, KeyState>, rs: Seq<ReadKey>) -> Seq<KeyEvent>
    decreases rs.len(),
{
    if rs.len() == 0 {
        Seq::empty()
    } else {
        let head: Seq<KeyEvent> = match spec_step_event(
            states[rs[0].code],
            rs[0].code,
            rs[0].value,
            rs[0].ts_us,
        ) {
            Some(ev) => seq![ev],
            None => Seq::empty(),
        };
        head + spec_feed_events(spec_feed(states, rs[0]), rs.drop_first())
    }
}

/// How many keystrokes a sequence of (value, timestamp) samples fires from
/// one key.
pub open spec fn spec_run_events(s: KeyState, code: u16, samples: Seq<(u16, u64)>) -> nat
    decreases samples.len(),
{
    if samples.len() == 0 {
        0
    } else {
        (if spec_step_event(s, code, samples[0].0, samples[0].1) is Some {
            1nat
        } else {
            0nat
        }) + spec_run_events(
            spec_step_state(s, samples[0].0, samples[0].1),
            code,
            samples.drop_first(),
        )
    }
}

/// Over any run of non-zero samples — one press, however the key moves —
/// at most one keystroke fires, and a key already reported fires none.
pub proof fn lemma_at_most_one_fire_per_press(s: KeyState, code: u16, samples: Seq<(u16, u64)>)
    requires
        forall|i: int| 0 <= i < samples.len() ==> (#[trigger] samples[i]).0 > 0,
    ensures
        spec_run_events(s, code, samples) <= 1,
        s is PressFired ==> spec_run_events(s, code, samples) == 0,
    decreases samples.len(),
{
    if samples.len() > 0 {
        let rest = samples.drop_first();
        assert(forall|i: int| 0 <= i < rest.len() ==> (#[trigger] rest[i]).0 > 0) by {
            assert(forall|i: int| 0 <= i < rest.len() ==> rest[i] == samples[i + 1]);
        }
        let value = samples[0].0;
        let ts = samples[0].1;
        assert(value > 0);
        let s1 = spec_step_state(s, value, ts);
        lemma_at_most_one_fire_per_press(s1, code, rest);
    }
}

/// A sample that moves back down while the key is above the lower threshold
/// fires even though the key never neared full travel.
pub proof fn lemma_early_release_fires(current_value: u16, value: u16)
    requires
        value < current_value,
        value > THRESHOLD_LOW,
    ensures
        spec_fire(current_value, value),
{
}

/// Watches the merged analog stream and turns per-key samples into fired
/// keystroke events. Owned by a single consumer; no locking.
pub struct KeyWatcher {
    keys: HashMap<u16, KeyState>,
}

impl KeyWatcher {
    /// The state of one scancode; a scancode never seen is `Released`.
    pub closed spec fn state_of(self, code: u16) -> KeyState {
        if self.keys@.contains_key(code) {
            self.keys@[code]
        } else {
            KeyState::Released
        }
    }

    /// The whole table of key states, total over all scancodes.
    pub open spec fn state_map(self) -> Map<u16, KeyState> {
        Map::new(|c: u16| true, |c: u16| self.state_of(c))
    }

    /// A fresh watcher: every key is `Released`.
    pub fn new() -> (w: KeyWatcher)
        ensures
            forall|c: u16| w.state_of(c) == KeyState::Released,
    {
        KeyWatcher { keys: HashMap::with_capacity(255) }
    }

    /// Read one key's current state.
    pub fn get_key_state(&self, code: u16) -> (s: KeyState)
        ensures
            s == self.state_of(code),
    {
        match self.keys.get(&code) {
            Some(st) => *st,
            None => KeyState::Released,
        }
    }

    /// Feed one analog sample; the sampled key steps its state machine and
    /// the fired keystroke, if this sample fires one, is returned. No other
    /// key's state moves.
    pub fn take_input(&mut self, input: &ReadKey) -> (fired: Option<KeyEvent>)
        ensures
            fired == spec_step_event(
                old(self).state_of(input.code),
                input.code,
                input.value,
                input.ts_us,
            ),
            final(self).state_of(input.code) == spec_step_state(
                old(self).state_of(input.code),
                input.value,
                input.ts_us,
            ),
            forall|c: u16| c != input.code ==> final(self).state_of(c) == old(self).state_of(c),
    {
        let code = input.code;
        let value = input.value;
        let ts = input.ts_us;
        let s = self.get_key_state(code);
        match s {
            KeyState::Released => {
                if value > 0 {
                    self.keys.insert(
                        code,
                        KeyState::PressStarted {
                            start_time: ts,
                            current_value: value,
                            current_time: ts,
                        },
                    );
                }
                None
            },
            KeyState::PressStarted { start_time, current_value, current_time } => {
                if value > THRESHOLD || (value < current_value && value > THRESHOLD_LOW) {
                    let elapsed: u64 = if ts >= start_time {
                        ts - start_time
                    } else {
                        0
                    };
                    let caps: bool;
                    let velocity: u64;
                    if elapsed == 0 {
                        caps = true;
                        velocity = u64::MAX;
                    } else {
                        caps = 2000u128 * (value as u128) > 459u128 * (elapsed as u128);
                        let num: u128 = (value as u128) * 1_000_000_000;
                        let den: u128 = 1275u128 * (elapsed as u128);
                        let q: u128 = num / den;
                        proof {
                            assert(num / den <= num) by (nonlinear_arith)
                                requires
                                    den >= 1,
                            ;
                        }
                        velocity = q as u64;
                    }
                    self.keys.insert(code, KeyState::PressFired);
                    Some(KeyEvent { scancode: code, caps, velocity })
                } else {
                    self.keys.insert(
                        code,
                        KeyState::PressStarted {
                            start_time,
                            current_value: value,
                            current_time: ts,
                        },
                    );
                    None
                }
            },
            KeyState::PressFired => {
                if value == 0 {
                    self.keys.insert(code, KeyState::Released);
                }
                None
            },
        }
    }
}

} // verus!
