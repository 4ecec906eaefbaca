use robeats_bot::{
    capture_region, get_brightnesses, lane_brightness, pixel_brightness, region_fits, HitPoint,
    Region, INVALID_PIXEL,
};

fn lanes_of(points: &[(usize, i32, i32)]) -> [Vec<HitPoint>; 4] {
    let mut lanes: [Vec<HitPoint>; 4] = [vec![], vec![], vec![], vec![]];
    for &(lane, x, y) in points {
        lanes[lane].push(HitPoint::new(x, y));
    }
    lanes
}

#[test]
fn pixel_brightness_is_brightest_channel() {
    assert_eq!(pixel_brightness(0x0011_2233), Some(0x33));
    assert_eq!(pixel_brightness(0x00AB_1020), Some(0xAB));
    assert_eq!(pixel_brightness(0x0000_7F00), Some(0x7F));
    assert_eq!(pixel_brightness(0), Some(0));
    assert_eq!(pixel_brightness(0x12FF_0000), Some(0xFF));
    assert_eq!(pixel_brightness(INVALID_PIXEL), None);
}

#[test]
fn lane_brightness_skips_failed_reads() {
    assert_eq!(lane_brightness(&vec![]), 0);
    assert_eq!(lane_brightness(&vec![INVALID_PIXEL]), 0);
    assert_eq!(lane_brightness(&vec![0x10, INVALID_PIXEL, 0x9000, 0x20]), 0x90);
}

#[test]
fn brightnesses_per_lane() {
    let samples = [vec![0x01], vec![], vec![0xFF0000, 0x00FF00], vec![INVALID_PIXEL, 0x5]];
    assert_eq!(get_brightnesses(&samples), [1, 0, 0xFF, 5]);
}

#[test]
fn region_of_no_points() {
    let lanes = lanes_of(&[]);
    assert!(region_fits(&lanes));
    assert_eq!(capture_region(&lanes), None);
}

#[test]
fn region_bounds_points() {
    let lanes = lanes_of(&[(0, 200, 600), (1, 350, 570), (3, 650, 640)]);
    assert!(region_fits(&lanes));
    let r = capture_region(&lanes).unwrap();
    assert_eq!(r, Region { min_x: 200, min_y: 570, width: 451, height: 71 });
    for lane in lanes.iter() {
        for p in lane {
            assert!(r.contains(p));
        }
    }
    assert_eq!(r.offset(&HitPoint::new(350, 570)), (150, 0));
    assert_eq!(r.offset(&HitPoint::new(650, 640)), (450, 70));
    assert!(!r.contains(&HitPoint::new(651, 600)));
}

#[test]
fn region_of_one_point() {
    let lanes = lanes_of(&[(2, -5, 7)]);
    assert_eq!(capture_region(&lanes), Some(Region { min_x: -5, min_y: 7, width: 1, height: 1 }));
}

#[test]
fn region_too_wide() {
    let lanes = lanes_of(&[(0, i32::MIN, 0), (1, i32::MAX, 0)]);
    assert!(!region_fits(&lanes));
    let lanes = lanes_of(&[(0, -1, 0), (1, i32::MAX - 1, 0)]);
    assert!(!region_fits(&lanes));
    let lanes = lanes_of(&[(0, 0, 0), (1, i32::MAX - 1, 0)]);
    assert!(region_fits(&lanes));
    assert_eq!(capture_region(&lanes).unwrap().width, i32::MAX);
}
