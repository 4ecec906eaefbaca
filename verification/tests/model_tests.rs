use robeats_bot::{Config, HitPoint, Shared};

#[test]
fn hit_point_new_is_red() {
    let p = HitPoint::new(12, -7);
    assert_eq!(p.x, 12);
    assert_eq!(p.y, -7);
    assert_eq!(p.color, [255, 0, 0]);
}

#[test]
fn shared_new_defaults() {
    let s = Shared::new();
    let xs: Vec<i32> = s.lanes.iter().map(|l| l[0].x).collect();
    assert_eq!(xs, vec![200, 350, 500, 650]);
    for lane in s.lanes.iter() {
        assert_eq!(lane.len(), 1);
        assert_eq!(lane[0].y, 600);
        assert_eq!(lane[0].color, [255, 0, 0]);
    }
    assert_eq!(s.keys, [0x5A, 0x58, 0xBE, 0xBF]);
    assert!(!s.enabled);
    assert!(s.show_hit_points);
    assert!(s.hold_notes);
    assert!(s.roblox_check);
    assert!(!s.on_roblox);
    assert_eq!(s.threshold, 160);
    assert_eq!(s.scan_interval, 2);
    assert_eq!(s.click_delay, 0);
}

fn custom_state() -> Shared {
    let mut s = Shared::new();
    s.lanes[1].push(HitPoint { x: 1, y: 2, color: [3, 4, 5] });
    s.keys = [1, 2, 3, 4];
    s.enabled = true;
    s.show_hit_points = false;
    s.hold_notes = false;
    s.roblox_check = false;
    s.on_roblox = true;
    s.threshold = 9;
    s.scan_interval = 0;
    s.click_delay = 33;
    s
}

#[test]
fn config_get_copies_settings() {
    let s = custom_state();
    let c = Config::get(&s);
    assert_eq!(c.lanes, s.lanes);
    assert_eq!(c.keys, [1, 2, 3, 4]);
    assert!(c.enabled);
    assert!(!c.show_hit_points);
    assert!(!c.hold_notes);
    assert!(!c.roblox_check);
    assert_eq!(c.threshold, 9);
    assert_eq!(c.scan_interval, 0);
    assert_eq!(c.click_delay, 33);
}

#[test]
fn config_set_keeps_game_window_flag() {
    let c = Config::get(&custom_state());
    let mut t = Shared::new();
    assert!(!t.on_roblox);
    c.set(&mut t);
    assert!(!t.on_roblox);
    assert_eq!(t.lanes, c.lanes);
    assert_eq!(t.keys, [1, 2, 3, 4]);
    assert!(t.enabled);
    assert_eq!(t.threshold, 9);
    assert_eq!(t.click_delay, 33);
}

#[test]
fn config_round_trip_law() {
    // saving then loading into the same state changes nothing
    let s = custom_state();
    let mut t = custom_state();
    Config::get(&s).set(&mut t);
    assert_eq!(t.lanes, s.lanes);
    assert_eq!(t.keys, s.keys);
    assert_eq!(t.on_roblox, s.on_roblox);
    assert_eq!(t.threshold, s.threshold);
    // loading twice: the later load decides
    let mut u = Shared::new();
    Config::get(&s).set(&mut u);
    Config::get(&Shared::new()).set(&mut u);
    assert_eq!(u.keys, [0x5A, 0x58, 0xBE, 0xBF]);
    assert_eq!(u.lanes, Shared::new().lanes);
}
