use rwm::client::find_monitor;
use rwm::geometry::Geometry;

#[test]
fn overlap_is_symmetric() {
    let a = Geometry::new(0, 0, 10, 10);
    let b = Geometry::new(5, -3, 20, 6);
    assert_eq!(a.overlap(b), b.overlap(a));
    assert_eq!(a.overlap(b), 5 * 3);
}

#[test]
fn overlap_of_disjoint_rectangles_is_zero() {
    let a = Geometry::new(0, 0, 10, 10);
    let b = Geometry::new(20, 20, 10, 10);
    assert_eq!(a.overlap(b), 0);
    assert_eq!(b.overlap(a), 0);
}

#[test]
fn overlap_of_rectangles_apart_on_one_axis_is_zero() {
    // Apart horizontally, overlapping vertically: no wrap to a negative product.
    let a = Geometry::new(0, 0, 10, 10);
    let b = Geometry::new(30, 0, 10, 10);
    assert_eq!(a.overlap(b), 0);
    // Apart on both axes in the same direction: still zero, not a positive product.
    let c = Geometry::new(-50, -50, 10, 10);
    assert_eq!(a.overlap(c), 0);
}

#[test]
fn overlap_of_contained_rectangle_is_its_area() {
    let monitor = Geometry::new(100, 0, 100, 100);
    let window = Geometry::new(150, 10, 40, 40);
    assert_eq!(monitor.overlap(window), 1600);
}

#[test]
fn large_overlap_does_not_overflow() {
    let a = Geometry::new(i32::MIN, i32::MIN, u32::MAX, u32::MAX);
    assert_eq!(a.overlap(a), (u32::MAX as u64) * (u32::MAX as u64));
}

#[test]
fn edges_are_position_plus_size() {
    let g = Geometry::new(-5, 7, 10, 3);
    assert_eq!(g.right(), 5);
    assert_eq!(g.bottom(), 10);
    let far = Geometry::new(i32::MAX, i32::MAX, u32::MAX, 1);
    assert_eq!(far.right(), i32::MAX as i64 + u32::MAX as i64);
}

#[test]
fn contains_is_half_open() {
    let g = Geometry::new(0, 0, 10, 10);
    assert!(g.contains(0, 0));
    assert!(g.contains(9, 9));
    assert!(!g.contains(10, 5));
    assert!(!g.contains(5, 10));
    assert!(!g.contains(-1, 5));
}

#[test]
fn find_monitor_picks_the_monitor_holding_the_window() {
    let monitors = vec![Geometry::new(0, 0, 100, 100), Geometry::new(100, 0, 100, 100)];
    assert_eq!(find_monitor(Geometry::new(150, 10, 40, 40), monitors), 1);
}

#[test]
fn find_monitor_without_monitors_is_zero() {
    assert_eq!(find_monitor(Geometry::new(150, 10, 40, 40), vec![]), 0);
    assert_eq!(find_monitor(Geometry::new(-7, 3, 0, 0), vec![]), 0);
}

#[test]
fn find_monitor_breaks_ties_by_first_occurrence() {
    let monitors = vec![Geometry::new(0, 0, 100, 100), Geometry::new(100, 0, 100, 100)];
    // Straddles both monitors equally.
    assert_eq!(find_monitor(Geometry::new(80, 0, 40, 40), monitors.clone()), 0);
    // Overlaps neither.
    assert_eq!(find_monitor(Geometry::new(500, 500, 10, 10), monitors), 0);
}

#[test]
fn find_monitor_prefers_the_larger_overlap() {
    let monitors = vec![
        Geometry::new(0, 0, 100, 100),
        Geometry::new(100, 0, 100, 100),
        Geometry::new(200, 0, 100, 100),
    ];
    assert_eq!(find_monitor(Geometry::new(180, 0, 60, 10), monitors), 2);
}

#[test]
fn find_monitor_reports_large_indices_modulo_256() {
    let mut monitors = vec![Geometry::new(0, 0, 10, 10); 300];
    monitors[299] = Geometry::new(1000, 0, 100, 100);
    assert_eq!(find_monitor(Geometry::new(1000, 0, 50, 50), monitors), (299 % 256) as u8);
}
