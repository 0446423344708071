use link_window_to_monitor::associations::{Associations, OnMonitor};

#[test]
fn new_store_is_empty() {
    let assoc = Associations::new();
    assert_eq!(assoc.monitor_of(7), None);
    assert!(assoc.windows_of(1).0.is_empty());
}

#[test]
fn link_creates_both_sides() {
    let mut assoc = Associations::new();
    assoc.link(10, 1);
    assert_eq!(assoc.monitor_of(10), Some(OnMonitor(1)));
    assert_eq!(assoc.windows_of(1).0, vec![10]);
}

#[test]
fn link_replaces_and_moves_between_window_sets() {
    let mut assoc = Associations::new();
    assoc.link(10, 1);
    assoc.link(11, 1);
    assoc.link(10, 2);
    assert_eq!(assoc.monitor_of(10), Some(OnMonitor(2)));
    assert_eq!(assoc.monitor_of(11), Some(OnMonitor(1)));
    assert_eq!(assoc.windows_of(1).0, vec![11]);
    assert_eq!(assoc.windows_of(2).0, vec![10]);
}

#[test]
fn unlink_removes_both_sides() {
    let mut assoc = Associations::new();
    assoc.link(10, 1);
    assoc.link(11, 1);
    assoc.unlink(10);
    assert_eq!(assoc.monitor_of(10), None);
    assert_eq!(assoc.monitor_of(11), Some(OnMonitor(1)));
    assert_eq!(assoc.windows_of(1).0, vec![11]);
}

#[test]
fn unlink_of_unknown_window_changes_nothing() {
    let mut assoc = Associations::new();
    assoc.link(10, 1);
    assoc.unlink(99);
    assert_eq!(assoc.monitor_of(10), Some(OnMonitor(1)));
    assert_eq!(assoc.windows_of(1).0, vec![10]);
}

#[test]
fn window_sets_stay_consistent_across_updates() {
    let mut assoc = Associations::new();
    assoc.link(10, 1);
    assoc.link(11, 2);
    assoc.link(12, 1);
    let on_one = assoc.windows_of(1).0;
    assert_eq!(on_one.len(), 2);
    assert!(on_one.contains(&10));
    assert!(on_one.contains(&12));
    assert_eq!(assoc.windows_of(2).0, vec![11]);
    assert!(assoc.windows_of(3).0.is_empty());
}
