use petsona::geometry::{
    button_pressed_edge, clamp_point_to_rect, input_rows, clamp_point_to_work_area, clamp_rect_to_work_area,
    monitor_for_point, rect_within_work_area, tray_icon_rgba, PhysicalRect,
};

fn work_area_of(bounds: PhysicalRect) -> PhysicalRect {
    PhysicalRect::new(bounds.x, bounds.y + 40, bounds.width, bounds.height - 40)
}

#[test]
fn pointer_event_edge_recovers_a_short_press_between_polls() {
    assert!(button_pressed_edge(false, false, true));
    assert!(button_pressed_edge(true, false, false));
    assert!(!button_pressed_edge(false, false, false));
    assert!(!button_pressed_edge(true, true, false));
}

#[test]
fn saved_position_is_clamped_into_the_work_area() {
    let work = PhysicalRect::new(0, 0, 1920, 1040);
    let wanted = PhysicalRect::new(1850, 1000, 220, 208);
    let clamped = clamp_rect_to_work_area(wanted, work);
    assert_eq!(clamped.x, 1700);
    assert_eq!(clamped.y, 832);
    assert!(rect_within_work_area(clamped, work));
    // A window that already fits is not moved.
    let fitting = PhysicalRect::new(100, 100, 220, 208);
    assert_eq!(clamp_rect_to_work_area(fitting, work), fitting);
}

#[test]
fn an_unplugged_monitor_falls_back_to_the_nearest_one() {
    let monitors = vec![
        PhysicalRect::new(0, 0, 1920, 1080),
        PhysicalRect::new(1920, 0, 2560, 1440),
    ];
    // The right monitor is still attached: the point lands on it.
    let right = monitor_for_point(&monitors, 2200, 300).expect("right monitor");
    assert_eq!(monitors[right].x, 1920);
    // The saved position was on a monitor that is gone; the nearest
    // remaining monitor wins and the origin is clamped back inside it.
    let gone = monitor_for_point(&monitors, -4000, 200).expect("nearest monitor");
    assert_eq!(monitors[gone].x, 0);
    let work = work_area_of(monitors[gone]);
    let clamped = clamp_rect_to_work_area(PhysicalRect::new(-4000, 200, 220, 208), work);
    assert!(rect_within_work_area(clamped, work));
}

#[test]
fn gravity_floor_uses_the_physical_work_area() {
    let work = work_area_of(PhysicalRect::new(0, 0, 1920, 1080));
    let rect = PhysicalRect::new(400, 100, 220, 208);
    let floor = work.bottom() - rect.height;
    assert_eq!(floor, 872);
    assert!(!rect_within_work_area(PhysicalRect::new(400, floor + 10, 220, 208), work));
}

#[test]
fn clamps_points_into_the_work_area() {
    let work = PhysicalRect::new(0, 0, 1920, 1040);
    assert_eq!(clamp_point_to_rect(500, 500, work, 8), (500, 500));
    assert_eq!(clamp_point_to_rect(4000, -50, work, 8), (1912, 8));
}

#[test]
fn second_monitor_keeps_negative_coordinates() {
    let work = PhysicalRect::new(-1920, 0, 1920, 1040);
    assert_eq!(clamp_point_to_rect(-2000, 200, work, 8), (-1912, 200));
    assert_eq!(clamp_point_to_rect(-100, 2000, work, 8), (-100, 1032));
}

#[test]
fn rect_edges_saturate_and_contain_half_open() {
    let r = PhysicalRect::new(10, 20, 100, 50);
    assert_eq!(r.right(), 110);
    assert_eq!(r.bottom(), 70);
    assert_eq!(r.center(), (60, 45));
    assert!(r.contains(10, 20));
    assert!(!r.contains(110, 20));
    assert!(!r.contains(10, 70));
    let huge = PhysicalRect::new(i32::MAX - 5, 0, 100, 10);
    assert_eq!(huge.right(), i32::MAX);
}

#[test]
fn clamping_twice_is_clamping_once() {
    let work = PhysicalRect::new(0, 0, 1920, 1040);
    let once = clamp_rect_to_work_area(PhysicalRect::new(-300, 5000, 220, 208), work);
    assert_eq!(clamp_rect_to_work_area(once, work), once);
    assert!(rect_within_work_area(once, work));
}

#[test]
fn point_without_a_work_area_is_left_alone() {
    assert_eq!(clamp_point_to_work_area(-77, 99999, 8, None), (-77, 99999));
    let work = PhysicalRect::new(0, 0, 100, 100);
    assert_eq!(clamp_point_to_work_area(-77, 99999, 8, Some(work)), (8, 92));
}

#[test]
fn no_monitor_means_no_choice() {
    assert_eq!(monitor_for_point(&Vec::new(), 0, 0), None);
}

#[test]
fn tray_icon_has_eyes_on_an_orange_disc() {
    let pixels = tray_icon_rgba();
    assert_eq!(pixels.len(), 32 * 32 * 4);
    let at = |x: usize, y: usize| pixels[(y * 32 + x) * 4..(y * 32 + x) * 4 + 4].to_vec();
    assert_eq!(at(12, 12), vec![24, 24, 28, 255]);
    assert_eq!(at(16, 24), vec![255, 170, 64, 255]);
    assert_eq!(at(0, 0), vec![0, 0, 0, 0]);
}

/// Characters that fit in one row of an input `width` points wide.
fn chars_per_row(width: f32) -> usize {
    ((width / 8.5).floor() as usize).max(1)
}

#[test]
fn conversation_window_is_small_and_wraps_long_text() {
    assert_eq!(input_rows("", chars_per_row(240.0)), 1, "empty input keeps one row");
    assert!(input_rows(&"很长".repeat(120), chars_per_row(240.0)) > 1, "long text grows the input");
}

#[test]
fn input_rows_count_each_line_and_stop_at_five() {
    assert_eq!(chars_per_row(240.0), 28);
    assert_eq!(input_rows("a\nb", 28), 2);
    assert_eq!(input_rows("\n\n", 28), 3);
    assert_eq!(input_rows(&"x".repeat(28), 28), 1);
    assert_eq!(input_rows(&"x".repeat(29), 28), 2);
    assert_eq!(input_rows(&"x".repeat(1000), 28), 5);
    assert_eq!(input_rows("abc", 0), 3);
}
