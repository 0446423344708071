use link_window_to_monitor::resolver::determine_monitor;
use link_window_to_monitor::types::{Extent, Monitor, MonitorSelection, Point, Window,
    WindowPosition};

fn monitor(name: &str, x: i32, y: i32, w: u32, h: u32, primary: bool, entity: u64) -> Monitor {
    Monitor {
        name: name.to_string(),
        physical_position: Point { x, y },
        physical_size: Extent { x: w, y: h },
        primary,
        entity,
    }
}

fn two_monitors() -> Vec<Monitor> {
    vec![
        monitor("A", 0, 0, 1920, 1080, false, 1),
        monitor("B", 1920, 0, 1920, 1080, false, 2),
    ]
}

fn window_at(x: i32, y: i32) -> Window {
    Window { position: WindowPosition::At(Point { x, y }) }
}

#[test]
fn automatic_is_unresolved() {
    let monitors = two_monitors();
    let window = Window { position: WindowPosition::Automatic };
    assert_eq!(determine_monitor(&window, &monitors), None);
}

#[test]
fn at_point_on_second_monitor() {
    let monitors = two_monitors();
    let r = determine_monitor(&window_at(2500, 300), &monitors);
    assert_eq!(r, Some(1));
    assert_eq!(monitors[r.unwrap()].name, "B");
}

#[test]
fn at_point_on_first_monitor() {
    let monitors = two_monitors();
    let r = determine_monitor(&window_at(100, 100), &monitors);
    assert_eq!(r, Some(0));
    assert_eq!(monitors[r.unwrap()].name, "A");
}

#[test]
fn at_negative_point_falls_back_to_origin_monitor() {
    let monitors = two_monitors();
    let r = determine_monitor(&window_at(-50, 300), &monitors);
    assert_eq!(r, Some(0));
    assert_eq!(monitors[r.unwrap()].name, "A");
}

#[test]
fn at_negative_point_without_origin_monitor_is_unresolved() {
    let monitors = vec![monitor("C", 100, 100, 800, 600, false, 3)];
    assert_eq!(determine_monitor(&window_at(-5, -5), &monitors), None);
}

#[test]
fn at_far_point_is_unresolved() {
    let monitors = two_monitors();
    assert_eq!(determine_monitor(&window_at(5000, 5000), &monitors), None);
}

#[test]
fn at_rectangle_corners_are_inclusive() {
    let monitors = vec![monitor("C", 0, 0, 100, 100, false, 3)];
    assert_eq!(determine_monitor(&window_at(0, 0), &monitors), Some(0));
    assert_eq!(determine_monitor(&window_at(100, 100), &monitors), Some(0));
    assert_eq!(determine_monitor(&window_at(101, 100), &monitors), None);
}

#[test]
fn at_shared_edge_first_monitor_wins() {
    // x = 1920 lies on the inclusive right edge of "A" and the left edge of "B".
    let monitors = two_monitors();
    assert_eq!(determine_monitor(&window_at(1920, 500), &monitors), Some(0));
}

#[test]
fn at_negative_point_last_origin_monitor_wins() {
    let monitors = vec![
        monitor("A", 0, 0, 100, 100, false, 1),
        monitor("B", 0, 0, 200, 200, false, 2),
    ];
    // Neither rectangle contains the point, so the fallback picks the monitor
    // at the origin; with two of them, the one seen last.
    assert_eq!(determine_monitor(&window_at(-10, 5), &monitors), Some(1));
}

#[test]
fn centered_current_is_unresolved() {
    let monitors = two_monitors();
    let window = Window { position: WindowPosition::Centered(MonitorSelection::Current) };
    assert_eq!(determine_monitor(&window, &monitors), None);
}

#[test]
fn centered_index_is_unresolved() {
    let monitors = two_monitors();
    let window = Window { position: WindowPosition::Centered(MonitorSelection::Index(0)) };
    assert_eq!(determine_monitor(&window, &monitors), None);
}

#[test]
fn centered_primary_finds_flagged_monitor() {
    let monitors = vec![
        monitor("A", 0, 0, 1920, 1080, true, 1),
        monitor("B", 1920, 0, 1920, 1080, false, 2),
    ];
    let window = Window { position: WindowPosition::Centered(MonitorSelection::Primary) };
    let r = determine_monitor(&window, &monitors);
    assert_eq!(r, Some(0));
    assert_eq!(monitors[r.unwrap()].name, "A");
}

#[test]
fn centered_primary_without_flag_is_unresolved() {
    let monitors = two_monitors();
    let window = Window { position: WindowPosition::Centered(MonitorSelection::Primary) };
    assert_eq!(determine_monitor(&window, &monitors), None);
}

#[test]
fn centered_primary_tie_break_is_first() {
    let monitors = vec![
        monitor("A", 0, 0, 1920, 1080, true, 1),
        monitor("B", 1920, 0, 1920, 1080, true, 2),
    ];
    let window = Window { position: WindowPosition::Centered(MonitorSelection::Primary) };
    assert_eq!(determine_monitor(&window, &monitors), Some(0));
}

#[test]
fn centered_entity_finds_referenced_monitor() {
    let monitors = two_monitors();
    let window = Window { position: WindowPosition::Centered(MonitorSelection::Entity(2)) };
    let r = determine_monitor(&window, &monitors);
    assert_eq!(r, Some(1));
    assert_eq!(monitors[r.unwrap()].name, "B");
}

#[test]
fn centered_entity_independent_of_order() {
    let mut monitors = two_monitors();
    monitors.reverse();
    let window = Window { position: WindowPosition::Centered(MonitorSelection::Entity(2)) };
    let r = determine_monitor(&window, &monitors);
    assert_eq!(r, Some(0));
    assert_eq!(monitors[r.unwrap()].name, "B");
}

#[test]
fn centered_unknown_entity_is_unresolved() {
    let monitors = two_monitors();
    let window = Window { position: WindowPosition::Centered(MonitorSelection::Entity(9)) };
    assert_eq!(determine_monitor(&window, &monitors), None);
}

#[test]
fn empty_monitor_list_is_unresolved() {
    let monitors: Vec<Monitor> = Vec::new();
    assert_eq!(determine_monitor(&window_at(10, 10), &monitors), None);
    assert_eq!(determine_monitor(&window_at(-10, 10), &monitors), None);
}
