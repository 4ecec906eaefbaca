use robeats_bot::{
    crosshair, crosshair_fits, mark_color, overlay_marks, HitPoint, Mark, Segment,
    OVERLAY_KEY_COLOR,
};

#[test]
fn mark_colors() {
    assert_eq!(mark_color([255, 0, 0]), 0x0000_00FF);
    assert_eq!(mark_color([0x12, 0x34, 0x56]), 0x0056_3412);
    assert_eq!(mark_color([255, 0, 255]), 0x00FF_00FE);
    assert_ne!(mark_color([255, 0, 255]), OVERLAY_KEY_COLOR);
    assert_eq!(mark_color([254, 0, 255]), 0x00FF_00FE);
}

#[test]
fn crosshair_arms() {
    let arms = crosshair(100, 50);
    assert_eq!(
        arms,
        [
            Segment { from_x: 80, from_y: 50, to_x: 96, to_y: 50 },
            Segment { from_x: 104, from_y: 50, to_x: 120, to_y: 50 },
            Segment { from_x: 100, from_y: 30, to_x: 100, to_y: 46 },
            Segment { from_x: 100, from_y: 54, to_x: 100, to_y: 70 },
        ]
    );
}

#[test]
fn crosshair_range() {
    assert!(crosshair_fits(0, 0));
    assert!(crosshair_fits(i32::MIN + 20, i32::MAX - 20));
    assert!(!crosshair_fits(i32::MIN + 19, 0));
    assert!(!crosshair_fits(0, i32::MAX - 19));
}

#[test]
fn marks_follow_lanes() {
    let mut lanes: [Vec<HitPoint>; 4] = [vec![], vec![], vec![], vec![]];
    lanes[0].push(HitPoint::new(1, 2));
    lanes[2].push(HitPoint { x: 3, y: 4, color: [255, 0, 255] });
    lanes[2].push(HitPoint { x: 5, y: 6, color: [0, 255, 0] });
    let marks = overlay_marks(&lanes, true);
    assert_eq!(
        marks,
        vec![
            Mark { x: 1, y: 2, color: 0xFF },
            Mark { x: 3, y: 4, color: 0xFF00FE },
            Mark { x: 5, y: 6, color: 0x00FF00 },
        ]
    );
    assert!(overlay_marks(&lanes, false).is_empty());
}
