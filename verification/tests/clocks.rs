use eesh::clock::format_clock;
use eesh::widget::{Terminal, UserList};

#[test]
fn midnight_at_zero() {
    assert_eq!(format_clock(0, 0), "[00:00:00]");
}

#[test]
fn each_unit_lands_in_its_column() {
    assert_eq!(format_clock(3661, 0), "[01:01:01]");
    assert_eq!(format_clock(86399, 0), "[23:59:59]");
    assert_eq!(format_clock(45296, 0), "[12:34:56]");
}

#[test]
fn the_clock_wraps_by_day() {
    assert_eq!(format_clock(86400 + 61, 0), "[00:01:01]");
    assert_eq!(format_clock(-1, 0), "[23:59:59]");
}

#[test]
fn the_offset_shifts_the_wall_clock() {
    assert_eq!(format_clock(0, 3600), "[01:00:00]");
    assert_eq!(format_clock(0, -3600), "[23:00:00]");
}

#[test]
fn widget_markers_construct() {
    let _t = Terminal::new();
    let _u = UserList::default();
}
