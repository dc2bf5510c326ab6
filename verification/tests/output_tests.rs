use wooting_shouting::output::EventKind;
use wooting_shouting::output::LEFT_SHIFT_CODE;
use wooting_shouting::output::send_key_plan;
use wooting_shouting::topology::EvdevCandidate;
use wooting_shouting::topology::TopologyError;
use wooting_shouting::topology::find_evdev;
use wooting_shouting::watcher::KeyEvent;

#[test]
fn a_plain_keystroke_replays_as_four_ordered_events() {
    let ev = KeyEvent { scancode: 30, caps: false, velocity: 42 };
    let plan = send_key_plan(1000, &ev).expect("code 30 names a key");
    assert_eq!(plan.len(), 4);
    assert_eq!(
        (plan[0].at_us, plan[0].kind, plan[0].code, plan[0].value),
        (1000, EventKind::Key, 30, 1)
    );
    assert_eq!((plan[1].at_us, plan[1].kind), (1000, EventKind::Sync));
    assert_eq!(
        (plan[2].at_us, plan[2].kind, plan[2].code, plan[2].value),
        (6000, EventKind::Key, 30, 0)
    );
    assert_eq!((plan[3].at_us, plan[3].kind), (6000, EventKind::Sync));
}

#[test]
fn a_shifted_keystroke_is_wrapped_in_the_shift_press() {
    let ev = KeyEvent { scancode: 30, caps: true, velocity: 400_000 };
    let plan = send_key_plan(0, &ev).expect("code 30 names a key");
    assert_eq!(plan.len(), 8);
    assert_eq!(
        (plan[0].at_us, plan[0].kind, plan[0].code, plan[0].value),
        (0, EventKind::Key, LEFT_SHIFT_CODE, 1)
    );
    assert_eq!(
        (plan[2].at_us, plan[2].code, plan[2].value),
        (5000, 30, 1)
    );
    assert_eq!(
        (plan[4].at_us, plan[4].code, plan[4].value),
        (10000, 30, 0)
    );
    assert_eq!(
        (plan[6].at_us, plan[6].kind, plan[6].code, plan[6].value),
        (15000, EventKind::Key, LEFT_SHIFT_CODE, 0)
    );
    // timestamps never decrease, and each press precedes its release
    for w in plan.windows(2) {
        assert!(w[0].at_us <= w[1].at_us);
    }
}

#[test]
fn an_unmapped_scancode_is_dropped() {
    let ev = KeyEvent { scancode: 0x0300, caps: false, velocity: 1 };
    assert!(send_key_plan(0, &ev).is_none());
    let ev2 = KeyEvent { scancode: 0xFFFF, caps: true, velocity: 1 };
    assert!(send_key_plan(0, &ev2).is_none());
    let last_valid = KeyEvent { scancode: 0x02FF, caps: false, velocity: 1 };
    assert!(send_key_plan(0, &last_valid).is_some());
}

#[test]
fn consecutive_replays_stay_ordered() {
    let a = send_key_plan(0, &KeyEvent { scancode: 30, caps: true, velocity: 1 }).unwrap();
    let next_start = a.last().unwrap().at_us;
    let b = send_key_plan(next_start, &KeyEvent { scancode: 31, caps: false, velocity: 1 }).unwrap();
    assert!(a.last().unwrap().at_us <= b[0].at_us);
}

fn node(vendor: u16, product: u16, has_alpha_key: bool) -> EvdevCandidate {
    EvdevCandidate { vendor, product, has_alpha_key }
}

#[test]
fn the_single_keyboard_node_is_found() {
    let cands = vec![
        node(0x31e3, 0x1221, false),
        node(0x31e3, 0x1221, true),
        node(0x1234, 0x1221, true),
    ];
    assert_eq!(find_evdev(&cands, 0x31e3, 0x1221), Ok(1));
}

#[test]
fn no_candidate_node_is_a_topology_error() {
    let cands = vec![node(0x31e3, 0x1221, false), node(0x9999, 0x1221, true)];
    assert_eq!(
        find_evdev(&cands, 0x31e3, 0x1221),
        Err(TopologyError::NoCandidate)
    );
    assert_eq!(
        find_evdev(&Vec::new(), 0x31e3, 0x1221),
        Err(TopologyError::NoCandidate)
    );
}

#[test]
fn several_candidate_nodes_are_a_topology_error() {
    let cands = vec![node(0x31e3, 0x1221, true), node(0x31e3, 0x1221, true)];
    assert_eq!(
        find_evdev(&cands, 0x31e3, 0x1221),
        Err(TopologyError::MultipleCandidates)
    );
}
