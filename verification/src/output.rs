//! The output replay planner.
//!
//! A fired keystroke is replayed on the virtual device as an ordered,
//! timestamped schedule: key down, sync, a short pause, key up, sync — and,
//! for a shifted keystroke, the whole sequence wrapped in a shift press with
//! the same pause around it. The pauses exist because consumers of the
//! virtual device need monotonic, visibly separated timestamps to parse
//! modifier ordering; this is a correctness requirement, not cosmetic. The
//! process walks the schedule, sleeping between steps and writing each
//! event.

use vstd::prelude::*;

use crate::watcher::KeyEvent;

verus! {

/// Codes at or above this count name no key and are dropped.
pub const KEY_CODE_COUNT: u16 = 0x300;

/// The key code of the left shift modifier.
pub const LEFT_SHIFT_CODE: u16 = 42;

/// The pause between consecutive replay steps, in microseconds.
pub const STEP_US: u64 = 5000;

/// The whole span of one replay: three pauses.
pub const PLAN_SPAN_US: u64 = 15000;

/// Relies on input_linux::Key::from_code: it accepts exactly the codes
/// below the key-code count 0x300, and the accepted key converts back to
/// the same code through u16::from.
#[verifier::external_body]
fn resolve_key_code(code: u16) -> (r: Option<u16>)
    ensures
        r == if code < KEY_CODE_COUNT {
            Some(code)
        } else {
            None::<u16>
        },
{
    match input_linux::Key::from_code(code) {
        Ok(k) => Some(k.into()),
        Err(_) => None,
    }
}

/// The kind of one replayed event.
#[derive(Clone, Copy, PartialEq, Eq, Structural, Debug)]
pub enum EventKind {
    Key,
    Sync,
}

/// One step of a replay schedule: when to write it (monotonic microseconds
/// relative to the output stage's epoch), what kind, and for key events the
/// code and value (1 presses, 0 releases).
#[derive(Clone, Copy, PartialEq, Eq, Structural, Debug)]
pub struct PlannedEvent {
    pub at_us: u64,
    pub kind: EventKind,
    pub code: u16,
    pub value: i32,
}

/// A key event of the schedule.
pub open spec fn spec_key_at(t: u64, code: u16, value: i32) -> PlannedEvent {
    PlannedEvent { at_us: t, kind: EventKind::Key, code, value }
}

/// A sync event of the schedule.
pub open spec fn spec_sync_at(t: u64) -> PlannedEvent {
    PlannedEvent { at_us: t, kind: EventKind::Sync, code: 0, value: 0 }
}

/// The replay schedule of one keystroke starting at `t0`: press and
/// release a step apart, each followed by a sync, and for a shifted
/// keystroke the shift press a step before and its release a step after.
pub open spec fn spec_plan(t0: u64, code: u16, caps: bool) -> Seq<PlannedEvent>
    recommends
        t0 + PLAN_SPAN_US <= u64::MAX,
{
    if caps {
        seq![
            spec_key_at(t0, LEFT_SHIFT_CODE, 1),
            spec_sync_at(t0),
            spec_key_at((t0 + STEP_US) as u64, code, 1),
            spec_sync_at((t0 + STEP_US) as u64),
            spec_key_at((t0 + 2 * STEP_US) as u64, code, 0),
            spec_sync_at((t0 + 2 * STEP_US) as u64),
            spec_key_at((t0 + 3 * STEP_US) as u64, LEFT_SHIFT_CODE, 0),
            spec_sync_at((t0 + 3 * STEP_US) as u64),
        ]
    } else {
        seq![
            spec_key_at(t0, code, 1),
            spec_sync_at(t0),
            spec_key_at((t0 + STEP_US) as u64, code, 0),
            spec_sync_at((t0 + STEP_US) as u64),
        ]
    }
}

/// Plan the replay of one fired keystroke starting at `now_us`. A scancode
/// that names no key yields no schedule: the event is dropped, never
/// propagated.
pub fn send_key_plan(now_us: u64, k: &KeyEvent) -> (r: Option<Vec<PlannedEvent>>)
    requires
        now_us + PLAN_SPAN_US <= u64::MAX,
    ensures
        k.scancode < KEY_CODE_COUNT ==> (r matches Some(v) && v@ == spec_plan(
            now_us,
            k.scancode,
            k.caps,
        )),
        k.scancode >= KEY_CODE_COUNT ==> r is None,
{
    let code = match resolve_key_code(k.scancode) {
        Some(c) => c,
        None => {
            return None;
        },
    };
    let mut plan: Vec<PlannedEvent> = Vec::new();
    let mut t: u64 = now_us;
    if k.caps {
        plan.push(PlannedEvent { at_us: t, kind: EventKind::Key, code: LEFT_SHIFT_CODE, value: 1 });
        plan.push(PlannedEvent { at_us: t, kind: EventKind::Sync, code: 0, value: 0 });
        t = t + STEP_US;
    }
    plan.push(PlannedEvent { at_us: t, kind: EventKind::Key, code, value: 1 });
    plan.push(PlannedEvent { at_us: t, kind: EventKind::Sync, code: 0, value: 0 });
    t = t + STEP_US;
    plan.push(PlannedEvent { at_us: t, kind: EventKind::Key, code, value: 0 });
    plan.push(PlannedEvent { at_us: t, kind: EventKind::Sync, code: 0, value: 0 });
    if k.caps {
        t = t + STEP_US;
        plan.push(PlannedEvent { at_us: t, kind: EventKind::Key, code: LEFT_SHIFT_CODE, value: 0 });
        plan.push(PlannedEvent { at_us: t, kind: EventKind::Sync, code: 0, value: 0 });
    }
    proof {
        assert(plan@ =~= spec_plan(now_us, k.scancode, k.caps));
    }
    Some(plan)
}

/// Replay timestamps never decrease, the schedule spans from `t0` to at
/// most `t0` plus the plan span, and every press of a key code stands
/// before every release of the same code — for the main key and for the
/// shift wrap alike.
pub proof fn lemma_plan_monotone(t0: u64, code: u16, caps: bool)
    requires
        t0 + PLAN_SPAN_US <= u64::MAX,
    ensures
        spec_plan(t0, code, caps).len() >= 1,
        forall|i: int, j: int|
            0 <= i <= j < spec_plan(t0, code, caps).len() ==> spec_plan(t0, code, caps)[i].at_us
                <= spec_plan(t0, code, caps)[j].at_us,
        spec_plan(t0, code, caps)[0].at_us == t0,
        spec_plan(t0, code, caps).last().at_us <= t0 + PLAN_SPAN_US,
        forall|i: int, j: int|
            #![trigger spec_plan(t0, code, caps)[i], spec_plan(t0, code, caps)[j]]
            {
                let plan = spec_plan(t0, code, caps);
                (0 <= i < plan.len() && 0 <= j < plan.len() && plan[i].kind == EventKind::Key
                    && plan[j].kind == EventKind::Key && plan[i].code == plan[j].code
                    && plan[i].value == 1 && plan[j].value == 0) ==> i < j
            },
{
}

/// Two replays written in order stay in order: a schedule started at or
/// after the end of the previous one's span has every timestamp at or
/// after every timestamp of the previous one.
pub proof fn lemma_plans_ordered(
    t0: u64,
    c0: u16,
    caps0: bool,
    t1: u64,
    c1: u16,
    caps1: bool,
)
    requires
        t0 + PLAN_SPAN_US <= t1,
        t1 + PLAN_SPAN_US <= u64::MAX,
    ensures
        forall|i: int, j: int|
            (0 <= i < spec_plan(t0, c0, caps0).len() && 0 <= j < spec_plan(t1, c1, caps1).len())
                ==> spec_plan(t0, c0, caps0)[i].at_us <= spec_plan(t1, c1, caps1)[j].at_us,
{
}

} // verus!
