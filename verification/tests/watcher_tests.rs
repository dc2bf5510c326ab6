use wooting_shouting::report::ReadKey;
use wooting_shouting::watcher::KeyState;
use wooting_shouting::watcher::KeyWatcher;

fn feed(w: &mut KeyWatcher, code: u16, value: u16, ts_us: u64) -> Option<wooting_shouting::watcher::KeyEvent> {
    w.take_input(&ReadKey { code, value, ts_us })
}

#[test]
fn fires_once_per_press_and_releases() {
    // value 0 -> 0.3 -> 0.5 -> 0.95 -> 0, as units of 1/1275
    let mut w = KeyWatcher::new();
    assert_eq!(feed(&mut w, 4, 0, 0), None);
    assert_eq!(feed(&mut w, 4, 383, 1000), None);
    assert_eq!(feed(&mut w, 4, 638, 2000), None);
    let ev = feed(&mut w, 4, 1211, 3000).expect("the near-bottom sample fires");
    assert_eq!(ev.scancode, 4);
    // velocity = 1211/1275 travel over 2000 us, in thousandths per second
    assert_eq!(ev.velocity, 474_901);
    assert!(ev.caps);
    assert_eq!(w.get_key_state(4), KeyState::PressFired);
    assert_eq!(feed(&mut w, 4, 0, 4000), None);
    assert_eq!(w.get_key_state(4), KeyState::Released);
}

#[test]
fn early_release_fires_at_the_decrease() {
    // value 0 -> 0.5 -> 0.45: a decrease while above the lower threshold
    // fires at the third sample, not the second
    let mut w = KeyWatcher::new();
    assert_eq!(feed(&mut w, 30, 0, 0), None);
    assert_eq!(feed(&mut w, 30, 638, 1000), None);
    let ev = feed(&mut w, 30, 574, 2000).expect("the decrease fires");
    assert_eq!(ev.scancode, 30);
    assert_eq!(w.get_key_state(30), KeyState::PressFired);
}

#[test]
fn a_slow_press_is_not_shifted() {
    let mut w = KeyWatcher::new();
    assert_eq!(feed(&mut w, 5, 300, 0), None);
    let ev = feed(&mut w, 5, 1211, 2_000_000).expect("near-bottom fires");
    // 1211/1275 travel over two whole seconds: 474 thousandths per second,
    // far below the shift threshold of 180 travels per second
    assert_eq!(ev.velocity, 474);
    assert!(!ev.caps);
}

#[test]
fn an_instantaneous_press_saturates_velocity() {
    let mut w = KeyWatcher::new();
    assert_eq!(feed(&mut w, 6, 500, 100), None);
    let ev = feed(&mut w, 6, 1200, 100).expect("near-bottom fires");
    assert_eq!(ev.velocity, u64::MAX);
    assert!(ev.caps);
}

#[test]
fn a_fired_key_suppresses_repeats_until_released() {
    let mut w = KeyWatcher::new();
    assert_eq!(feed(&mut w, 7, 700, 0), None);
    assert!(feed(&mut w, 7, 1200, 500).is_some());
    assert_eq!(feed(&mut w, 7, 1250, 1000), None);
    assert_eq!(feed(&mut w, 7, 600, 1500), None);
    assert_eq!(feed(&mut w, 7, 0, 2000), None);
    // a fresh press can fire again
    assert_eq!(feed(&mut w, 7, 700, 3000), None);
    assert!(feed(&mut w, 7, 1200, 3500).is_some());
}

#[test]
fn a_press_below_both_thresholds_never_fires() {
    let mut w = KeyWatcher::new();
    assert_eq!(feed(&mut w, 8, 400, 0), None);
    assert_eq!(feed(&mut w, 8, 500, 1000), None);
    assert_eq!(feed(&mut w, 8, 450, 2000), None);
    assert_eq!(feed(&mut w, 8, 0, 3000), None);
}

#[test]
fn keys_step_independently() {
    let mut w = KeyWatcher::new();
    assert_eq!(feed(&mut w, 1, 700, 0), None);
    assert_eq!(feed(&mut w, 2, 700, 0), None);
    assert!(feed(&mut w, 1, 1200, 500).is_some());
    assert_eq!(w.get_key_state(1), KeyState::PressFired);
    assert!(matches!(w.get_key_state(2), KeyState::PressStarted { .. }));
    assert_eq!(w.get_key_state(3), KeyState::Released);
}

#[test]
fn the_shift_threshold_comparison_is_exact() {
    // firing at value 918/1275 after 4000 us gives exactly 180 travels per
    // second, which does not exceed the threshold; one microsecond less does
    let mut w = KeyWatcher::new();
    assert_eq!(feed(&mut w, 9, 1000, 0), None);
    let ev = feed(&mut w, 9, 918, 4000).expect("decrease fires");
    assert!(!ev.caps);
    let mut w2 = KeyWatcher::new();
    assert_eq!(feed(&mut w2, 9, 1000, 1), None);
    let ev2 = feed(&mut w2, 9, 918, 4000).expect("decrease fires");
    assert!(ev2.caps);
}
