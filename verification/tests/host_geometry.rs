use remouseable::driver::{
    choose_monitor, home_delta, injection_origin, motion_chunks, parse_cursor_position,
    relative_delta, scale_chunk, MonitorInfo, MAX_CHUNK,
};

fn monitor(id: u32, is_primary: bool) -> MonitorInfo {
    MonitorInfo {
        id,
        label: format!("Monitor {id}"),
        x: 0,
        y: 0,
        width: 1920,
        height: 1080,
        is_primary,
    }
}

fn positioned_monitor(id: u32, x: i32, y: i32) -> MonitorInfo {
    MonitorInfo {
        x,
        y,
        ..monitor(id, false)
    }
}

#[test]
fn monitor_selection_defaults_to_primary() {
    let monitors = [monitor(10, false), monitor(20, true)];

    assert_eq!(choose_monitor(&monitors, None).unwrap().id, 20);
}

#[test]
fn monitor_selection_uses_requested_id() {
    let monitors = [monitor(10, true), monitor(20, false)];

    assert_eq!(choose_monitor(&monitors, Some(20)).unwrap().id, 20);
    assert!(choose_monitor(&monitors, Some(99)).is_err());
}

#[test]
fn injection_origin_is_relative_to_virtual_screen_top_left() {
    let monitors = [
        positioned_monitor(10, -2560, 0),
        positioned_monitor(20, 0, 0),
    ];

    assert_eq!(injection_origin(&monitors, &monitors[0], true), (0, 0));
    assert_eq!(injection_origin(&monitors, &monitors[1], true), (2560, 0));
}

#[test]
fn uinput_relative_delta_uses_first_move_as_baseline() {
    let mut last_position = None;

    assert_eq!(relative_delta(&mut last_position, 100, 200), None);
    assert_eq!(
        relative_delta(&mut last_position, 110, 180),
        Some((10, -20))
    );
    assert_eq!(relative_delta(&mut last_position, 90, 210), Some((-20, 30)));
}

#[test]
fn uinput_home_events_clamp_to_origin_then_move_to_target() {
    assert_eq!(home_delta(1920, 1080), (-3840, -2160));
}

#[test]
fn uinput_motion_chunks_preserve_total_delta() {
    let chunks = motion_chunks(150, -90);

    assert!(chunks.iter().all(|(x, y)| x.abs() <= 64 && y.abs() <= 64));
    assert_eq!(chunks.iter().map(|(x, _)| x).sum::<i32>(), 150);
    assert_eq!(chunks.iter().map(|(_, y)| y).sum::<i32>(), -90);
}

#[test]
fn uinput_motion_chunks_keep_zero_axis_zero() {
    let chunks = motion_chunks(0, 130);

    assert!(chunks.iter().all(|(x, _)| *x == 0));
    assert_eq!(chunks.iter().map(|(_, y)| y).sum::<i32>(), 130);
}

#[test]
fn parses_hyprland_cursor_position() {
    assert_eq!(parse_cursor_position("531, 687\n"), Some((531, 687)));
}

#[test]
fn monitor_selection_falls_back_to_first_and_fails_on_none() {
    let monitors = [monitor(10, false), monitor(20, false)];

    assert_eq!(choose_monitor(&monitors, None).unwrap().id, 10);
    assert!(choose_monitor(&[], None).is_err());
    assert!(choose_monitor(&[], Some(10)).is_err());
}

#[test]
fn injection_origin_outside_a_virtual_screen_is_the_monitor_position() {
    let monitors = [
        positioned_monitor(10, -2560, -40),
        positioned_monitor(20, 1920, 30),
    ];

    assert_eq!(injection_origin(&monitors, &monitors[1], false), (1920, 30));
    assert_eq!(injection_origin(&monitors, &monitors[1], true), (4480, 70));
}

#[test]
fn home_delta_saturates_for_huge_screens() {
    assert_eq!(home_delta(i32::MAX, 0), (-i32::MAX, 0));
    assert_eq!(home_delta(-5, 7), (10, -14));
}

#[test]
fn motion_chunks_of_small_and_zero_moves() {
    assert_eq!(motion_chunks(0, 0), vec![(0, 0)]);
    assert_eq!(motion_chunks(5, -3), vec![(5, -3)]);
    assert_eq!(motion_chunks(64, 0), vec![(64, 0)]);
    assert_eq!(motion_chunks(65, 0), vec![(32, 0), (33, 0)]);
    let chunks = motion_chunks(-1000, 999);
    assert!(chunks
        .iter()
        .all(|(x, y)| x.abs() <= MAX_CHUNK && y.abs() <= MAX_CHUNK));
    assert_eq!(chunks.iter().map(|(x, _)| x).sum::<i32>(), -1000);
    assert_eq!(chunks.iter().map(|(_, y)| y).sum::<i32>(), 999);
}

#[test]
fn scale_chunk_rounds_toward_zero() {
    assert_eq!(scale_chunk(150, 1, 3), 50);
    assert_eq!(scale_chunk(-100, 1, 3), -33);
    assert_eq!(scale_chunk(100, 3, 3), 100);
}

#[test]
fn cursor_position_rejects_malformed_text() {
    assert_eq!(parse_cursor_position("  -12 ,  40  "), Some((-12, 40)));
    assert_eq!(parse_cursor_position("12 40"), None);
    assert_eq!(parse_cursor_position("12, x"), None);
    assert_eq!(parse_cursor_position(""), None);
}
