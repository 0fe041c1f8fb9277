use xm2w::xm2w::driftguard::{
    button_changes, deadzone, filter_report, set_deadzone, GuardState, K_CG_LEFT_DOWN,
    K_CG_LEFT_UP, K_CG_OTHER_DOWN, K_CG_OTHER_UP, K_CG_RIGHT_DOWN,
};

#[test]
fn phantom_is_dropped() {
    assert_eq!(filter_report(1, -1, -1), (0, 0));
    assert_eq!(filter_report(1, 1, -1), (0, 0));
    assert_eq!(filter_report(1, 0, 0), (0, 0));
    assert_eq!(filter_report(2, -2, 2), (0, 0));
}

#[test]
fn real_movement_passes() {
    assert_eq!(filter_report(1, 5, -3), (5, -3));
    assert_eq!(filter_report(1, -2, 0), (-2, 0));
    assert_eq!(filter_report(1, 0, 9), (0, 9));
}

#[test]
fn button_edges() {
    assert_eq!(button_changes(0, 0), vec![]);
    assert_eq!(button_changes(0, 0x01), vec![(K_CG_LEFT_DOWN, 0)]);
    assert_eq!(button_changes(0x01, 0), vec![(K_CG_LEFT_UP, 0)]);
    assert_eq!(button_changes(0, 0x02), vec![(K_CG_RIGHT_DOWN, 1)]);
    assert_eq!(button_changes(0, 0x04), vec![(K_CG_OTHER_DOWN, 2)]);
    assert_eq!(button_changes(0, 0x08), vec![(K_CG_OTHER_DOWN, 3)]); // back
    assert_eq!(button_changes(0, 0x10), vec![(K_CG_OTHER_DOWN, 4)]); // forward
    let both = button_changes(0x01 | 0x04, 0x02 | 0x08);
    assert!(both.contains(&(K_CG_LEFT_UP, 0)));
    assert!(both.contains(&(K_CG_OTHER_UP, 2)));
    assert!(both.contains(&(K_CG_RIGHT_DOWN, 1)));
    assert!(both.contains(&(K_CG_OTHER_DOWN, 3)));
}

#[test]
fn deadzone_clamped() {
    let mut guard = GuardState::new();
    set_deadzone(&mut guard, 999);
    assert_eq!(deadzone(&guard), 32);
    set_deadzone(&mut guard, -5);
    assert_eq!(deadzone(&guard), 0);
    set_deadzone(&mut guard, 1);
    assert_eq!(deadzone(&guard), 1);
}
