use robeats_bot::{
    add_hit_point, apply_linked_drag, can_remove, check_drag_fits, check_frame, clone_lanes,
    end_frame, remove_hit_point,
    roblox_indicator, select_keybind, GuiState, HitPoint, Indicator, InputEvent, Key, Shared,
};

fn key(k: Key) -> InputEvent {
    InputEvent::Key { key: k, pressed: true }
}

#[test]
fn keybind_selection() {
    assert_eq!(select_keybind(&vec![]), None);
    assert_eq!(select_keybind(&vec![InputEvent::Other, key(Key::Other)]), None);
    assert_eq!(select_keybind(&vec![key(Key::Escape), key(Key::A)]), Some(None));
    assert_eq!(select_keybind(&vec![InputEvent::Key { key: Key::A, pressed: false }, key(Key::B)]), Some(Some(0x42)));
    assert_eq!(select_keybind(&vec![InputEvent::Text("".to_string()), InputEvent::Text("!x".to_string()), InputEvent::Text(".a".to_string())]), Some(Some(0xBE)));
    assert_eq!(select_keybind(&vec![InputEvent::Text("q".to_string()), key(Key::Escape)]), Some(Some(0x51)));
}

#[test]
fn gui_state_starts_linked() {
    let g = GuiState::new();
    assert_eq!(g.linked(), [true; 4]);
    assert_eq!(g.pending_lane(), None);
}

#[test]
fn keybind_flow() {
    let mut g = GuiState::new();
    let mut keys = [0x5A, 0x58, 0xBE, 0xBF];
    // nothing waits: events are ignored
    g.on_set_keybind(&mut keys, &vec![key(Key::Q)]);
    assert_eq!(keys, [0x5A, 0x58, 0xBE, 0xBF]);
    g.request_keybind(2);
    g.request_keybind(1);
    assert_eq!(g.pending_lane(), Some(2));
    assert_eq!(g.key_label(2, &keys), "...");
    assert_eq!(g.key_label(1, &keys), "X");
    // no deciding event: still waiting
    g.on_set_keybind(&mut keys, &vec![InputEvent::Other]);
    assert_eq!(g.pending_lane(), Some(2));
    g.on_set_keybind(&mut keys, &vec![key(Key::ArrowUp)]);
    assert_eq!(keys, [0x5A, 0x58, 0x26, 0xBF]);
    assert_eq!(g.pending_lane(), None);
    assert_eq!(g.key_label(2, &keys), "\u{2191}");
    // escape cancels
    g.request_keybind(0);
    g.on_set_keybind(&mut keys, &vec![key(Key::Escape)]);
    assert_eq!(keys, [0x5A, 0x58, 0x26, 0xBF]);
    assert_eq!(g.pending_lane(), None);
}

#[test]
fn linked_flags() {
    let mut g = GuiState::new();
    g.set_linked(3, false);
    assert!(!g.is_linked(3));
    assert_eq!(g.linked(), [true, true, true, false]);
}

#[test]
fn indicator_dot() {
    assert_eq!(roblox_indicator(false, true), None);
    assert_eq!(roblox_indicator(true, true), Some(Indicator::Green));
    assert_eq!(roblox_indicator(true, false), Some(Indicator::Red));
}

#[test]
fn add_and_remove_points() {
    let mut lanes = Shared::new().lanes;
    assert!(!can_remove(&lanes, 1));
    add_hit_point(&mut lanes, 1);
    assert_eq!(lanes[1], vec![HitPoint::new(350, 600), HitPoint::new(350, 570)]);
    assert!(can_remove(&lanes, 1));
    remove_hit_point(&mut lanes, 1, 0);
    assert_eq!(lanes[1], vec![HitPoint::new(350, 570)]);
    assert_eq!(lanes[0], vec![HitPoint::new(200, 600)]);
}

#[test]
fn linked_drag_moves_linked_lanes() {
    let mut lanes = Shared::new().lanes;
    add_hit_point(&mut lanes, 3);
    let before = clone_lanes(&lanes);
    lanes[1][0].x += 10;
    lanes[1][0].y -= 5;
    let linked = [true, true, false, true];
    assert!(check_drag_fits(&lanes, &before, &linked));
    assert!(apply_linked_drag(&mut lanes, &before, &linked));
    assert_eq!(lanes[0], vec![HitPoint::new(210, 595)]);
    assert_eq!(lanes[1], vec![HitPoint::new(360, 595)]);
    assert_eq!(lanes[2], vec![HitPoint::new(500, 600)]);
    assert_eq!(lanes[3], vec![HitPoint::new(660, 595), HitPoint::new(660, 565)]);
}

#[test]
fn unlinked_drag_stays_put() {
    let mut lanes = Shared::new().lanes;
    let before = clone_lanes(&lanes);
    lanes[2][0].x += 10;
    let linked = [true, true, false, true];
    assert!(!apply_linked_drag(&mut lanes, &before, &linked));
    assert_eq!(lanes[2], vec![HitPoint::new(510, 600)]);
    assert_eq!(lanes[0], vec![HitPoint::new(200, 600)]);
    let unchanged = clone_lanes(&before);
    let mut same = clone_lanes(&before);
    assert!(!apply_linked_drag(&mut same, &unchanged, &[true; 4]));
    assert_eq!(same, before);
}

#[test]
fn first_dragged_point_wins() {
    let mut lanes = Shared::new().lanes;
    let before = clone_lanes(&lanes);
    lanes[1][0].x += 1;
    lanes[3][0].x += 100;
    assert!(apply_linked_drag(&mut lanes, &before, &[true; 4]));
    assert_eq!(lanes[0][0].x, 201);
    assert_eq!(lanes[1][0].x, 351);
    assert_eq!(lanes[2][0].x, 501);
    assert_eq!(lanes[3][0].x, 751);
}

#[test]
fn drag_out_of_range_is_refused() {
    let mut lanes = Shared::new().lanes;
    let before = clone_lanes(&lanes);
    lanes[0][0].x = i32::MAX;
    assert!(!check_drag_fits(&lanes, &before, &[true; 4]));
    let mut far = Shared::new().lanes;
    far[0][0].x = i32::MIN;
    let before = clone_lanes(&far);
    let mut moved = clone_lanes(&far);
    moved[0][0].x = i32::MIN + 1;
    moved[1][0].x = -1;
    assert!(check_drag_fits(&moved, &before, &[true; 4]));
    moved[1][0].x = i32::MAX;
    assert!(!check_drag_fits(&moved, &before, &[true; 4]));
}

#[test]
fn frame_add_remove_and_drag() {
    let mut lanes = Shared::new().lanes;
    add_hit_point(&mut lanes, 0);
    let before = clone_lanes(&lanes);
    lanes[0][0].y += 3;
    let linked = [true, false, true, true];
    assert!(check_frame(&lanes, &before, &linked, Some(2), Some((0, 1))));
    assert!(end_frame(&mut lanes, &before, &linked, Some(2), Some((0, 1))));
    assert_eq!(lanes[0], vec![HitPoint::new(200, 603)]);
    assert_eq!(lanes[1], vec![HitPoint::new(350, 600)]);
    assert_eq!(lanes[2], vec![HitPoint::new(500, 603), HitPoint::new(500, 573)]);
    assert_eq!(lanes[3], vec![HitPoint::new(650, 603)]);
    assert!(lanes.iter().all(|l| !l.is_empty()));
}

#[test]
fn frame_without_edits() {
    let mut lanes = Shared::new().lanes;
    let before = clone_lanes(&lanes);
    assert!(check_frame(&lanes, &before, &[true; 4], None, None));
    assert!(!end_frame(&mut lanes, &before, &[true; 4], None, None));
    assert_eq!(lanes, before);
}

#[test]
fn frame_refuses_what_would_fail() {
    let lanes = Shared::new().lanes;
    let before = clone_lanes(&lanes);
    // removing the only point of a lane is never offered
    assert!(!check_frame(&lanes, &before, &[true; 4], None, Some((1, 0))));
    // adding to an empty lane has no last point to copy
    let mut empty = Shared::new().lanes;
    empty[3].clear();
    let before = clone_lanes(&empty);
    assert!(!check_frame(&empty, &before, &[true; 4], Some(3), None));
    // a new point above i32::MIN + 30 is out of range
    let mut low = Shared::new().lanes;
    low[1][0].y = i32::MIN + 29;
    let before = clone_lanes(&low);
    assert!(!check_frame(&low, &before, &[true; 4], Some(1), None));
    assert!(!check_frame(&low, &before, &[true; 4], Some(4), None));
}
