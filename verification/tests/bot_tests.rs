use robeats_bot::{idle_pause, lane_step, Bot, HitPoint, KeyAction, LaneState, Pause, Shared};

const FRESH: LaneState = LaneState { key_down: false, clicked: false, detected_at: None };

fn press(key: u16) -> KeyAction {
    KeyAction { key, down: true }
}

fn release(key: u16) -> KeyAction {
    KeyAction { key, down: false }
}

#[test]
fn lane_first_sight_is_timestamped() {
    let (next, actions) = lane_step(FRESH, true, 1000, 0, true, 0x5A);
    assert_eq!(next, LaneState { key_down: false, clicked: false, detected_at: Some(1000) });
    assert!(actions.is_empty());
}

#[test]
fn lane_waits_for_delay() {
    let seen = LaneState { key_down: false, clicked: false, detected_at: Some(1000) };
    let (next, actions) = lane_step(seen, true, 1500, 1000, true, 0x5A);
    assert_eq!(next, seen);
    assert!(actions.is_empty());
    let (next, actions) = lane_step(seen, true, 2000, 1000, true, 0x5A);
    assert_eq!(next, LaneState { key_down: true, clicked: false, detected_at: Some(1000) });
    assert_eq!(actions, vec![press(0x5A)]);
}

#[test]
fn lane_tap_mode_presses_and_releases() {
    let seen = LaneState { key_down: false, clicked: false, detected_at: Some(5) };
    let (next, actions) = lane_step(seen, true, 5, 0, false, 0x58);
    assert_eq!(next, LaneState { key_down: false, clicked: true, detected_at: None });
    assert_eq!(actions, vec![press(0x58), release(0x58)]);
    // the same note is not tapped again
    let (again, actions) = lane_step(next, true, 50, 0, false, 0x58);
    assert_eq!(again, next);
    assert!(actions.is_empty());
}

#[test]
fn lane_releases_when_note_passes() {
    let held = LaneState { key_down: true, clicked: false, detected_at: Some(5) };
    let (next, actions) = lane_step(held, false, 10, 0, true, 0xBE);
    assert_eq!(next, FRESH);
    assert_eq!(actions, vec![release(0xBE)]);
    let (next, actions) = lane_step(FRESH, false, 10, 0, true, 0xBE);
    assert_eq!(next, FRESH);
    assert!(actions.is_empty());
}

#[test]
fn lane_clock_going_back_counts_as_no_wait() {
    let seen = LaneState { key_down: false, clicked: false, detected_at: Some(100) };
    let (_, actions) = lane_step(seen, true, 50, 0, true, 1);
    assert_eq!(actions, vec![press(1)]);
    let (_, actions) = lane_step(seen, true, 50, 1, true, 1);
    assert!(actions.is_empty());
}

fn enabled_state() -> Shared {
    let mut s = Shared::new();
    s.enabled = true;
    s.roblox_check = false;
    s.click_delay = 1;
    s
}

#[test]
fn bot_new_defaults() {
    let b = Bot::new(42);
    for i in 0..4 {
        assert_eq!(b.lane_state(i), FRESH);
    }
    assert!(!b.is_active());
    assert!(!b.on_roblox());
    assert_eq!(b.scan_pause(), Pause::Sleep(2));
    assert!(b.lanes().iter().all(|l| l.is_empty()));
    assert_eq!(idle_pause(), Pause::Sleep(5));
}

#[test]
fn bot_reads_settings_every_64th_pass() {
    let mut b = Bot::new(0);
    let mut reads = vec![];
    for pass in 1..=130u32 {
        if b.begin_pass() {
            reads.push(pass);
        }
    }
    assert_eq!(reads, vec![64, 128]);
}

#[test]
fn bot_sync_and_activity() {
    let mut b = Bot::new(0);
    let mut s = enabled_state();
    s.lanes[0].push(HitPoint::new(1, 1));
    b.sync(&s);
    assert!(b.is_active());
    assert_eq!(b.lanes(), &s.lanes);
    s.roblox_check = true;
    b.sync(&s);
    assert!(!b.is_active());
    b.record_roblox(true, 10);
    assert!(b.is_active());
    s.scan_interval = 0;
    b.sync(&s);
    assert_eq!(b.scan_pause(), Pause::Yield);
}

#[test]
fn bot_roblox_check_period() {
    let mut b = Bot::new(1_000);
    assert!(!b.roblox_check_due(1_000 + 200_000_000));
    assert!(b.roblox_check_due(1_000 + 200_000_001));
    b.record_roblox(false, 500_000_000);
    assert!(!b.roblox_check_due(600_000_000));
    assert!(b.roblox_check_due(800_000_000));
    assert!(!b.roblox_check_due(0));
}

#[test]
fn bot_react_hold_mode() {
    let mut b = Bot::new(0);
    b.sync(&enabled_state());
    // threshold 160: lanes 0 and 2 see notes
    let a = b.react([200, 160, 161, 0], 0);
    assert!(a.is_empty());
    assert_eq!(b.lane_state(0).detected_at, Some(0));
    assert_eq!(b.lane_state(1), FRESH);
    // click delay 1 ms not yet over
    let a = b.react([200, 0, 200, 0], 999_999);
    assert!(a.is_empty());
    let a = b.react([200, 0, 200, 0], 1_000_000);
    assert_eq!(a, vec![press(0x5A), press(0xBE)]);
    assert!(b.lane_state(0).key_down && b.lane_state(2).key_down);
    // held keys are not pressed again
    let a = b.react([200, 0, 200, 0], 5_000_000);
    assert!(a.is_empty());
    // note on lane 2 passes
    let a = b.react([200, 0, 0, 0], 6_000_000);
    assert_eq!(a, vec![release(0xBE)]);
    assert_eq!(b.lane_state(2), FRESH);
}

#[test]
fn bot_react_tap_mode() {
    let mut b = Bot::new(0);
    let mut s = enabled_state();
    s.hold_notes = false;
    s.click_delay = 0;
    b.sync(&s);
    assert!(b.react([0, 255, 0, 255], 7).is_empty());
    let a = b.react([0, 255, 0, 255], 7);
    assert_eq!(a, vec![press(0x58), release(0x58), press(0xBF), release(0xBF)]);
    assert!(b.react([0, 255, 0, 255], 8).is_empty());
    assert!(b.lane_state(1).clicked);
}

#[test]
fn bot_release_all_when_inactive() {
    let mut b = Bot::new(0);
    b.sync(&enabled_state());
    b.react([255, 255, 0, 0], 0);
    let a = b.react([255, 255, 0, 0], 2_000_000);
    assert_eq!(a, vec![press(0x5A), press(0x58)]);
    let a = b.release_all();
    assert_eq!(a, vec![release(0x5A), release(0x58)]);
    for i in 0..4 {
        let ls = b.lane_state(i);
        assert!(!ls.key_down && !ls.clicked);
    }
    // when each note was seen is kept
    assert_eq!(b.lane_state(0).detected_at, Some(0));
    assert!(b.release_all().is_empty());
}

#[test]
fn bot_run_alternates_and_presses_once_per_note() {
    let mut b = Bot::new(0);
    let mut s = enabled_state();
    s.click_delay = 0;
    b.sync(&s);
    let mut events: Vec<KeyAction> = vec![];
    let notes = [255u8, 255, 0, 255, 255, 255, 0, 0, 255, 255];
    for (t, &n) in notes.iter().enumerate() {
        if t == 2 {
            // an idle pass in the middle of a note releases the key
            events.extend(b.release_all());
            continue;
        }
        events.extend(b.react([n, 0, 0, 0], t as u64));
    }
    let downs: Vec<bool> = events.iter().map(|a| a.down).collect();
    assert_eq!(downs, vec![true, false, true, false, true]);
    // tap mode: one tap per note
    let mut b = Bot::new(0);
    s.hold_notes = false;
    b.sync(&s);
    let mut taps = 0;
    for t in 0..10u64 {
        let n = if t < 6 { 255 } else { 0 };
        taps += b.react([0, n, 0, 0], t).iter().filter(|a| a.down).count();
    }
    assert_eq!(taps, 1);
}
