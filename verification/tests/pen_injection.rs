use std::time::Duration;

use remouseable::pen::{PenInput, PenPhase};
use remouseable::windows_pen::{
    after_injection, closing_frame, initial_injector_state, injection_plan, out_of_range_packet,
    pen_packet, refreshes_update_clock, should_coalesce_update, update_interval_nanos,
    PenInjectorState,
};

fn frame(phase: PenPhase, pressure: u32) -> PenInput {
    PenInput {
        x: 10,
        y: 20,
        pressure,
        tilt_x: Some(15),
        tilt_y: None,
        rotation: None,
        phase,
        position_changed: true,
    }
}

fn phases(plan: &[(PenInput, bool)]) -> Vec<(PenPhase, bool)> {
    plan.iter().map(|(input, first)| (input.phase, *first)).collect()
}

fn run(frames: &[PenInput]) -> Vec<(PenPhase, bool)> {
    let mut state = initial_injector_state();
    let mut injected = Vec::new();
    for input in frames {
        for (packet, first) in injection_plan(state, *input, None, 5_000_000) {
            state = after_injection(packet.phase);
            injected.push((packet.phase, first));
        }
    }
    injected
}

#[test]
fn coalesces_only_high_frequency_update_frames() {
    let interval = Duration::from_millis(5).as_nanos();
    assert!(should_coalesce_update(
        PenPhase::Hover,
        Some(Duration::from_millis(2).as_nanos()),
        interval
    ));
    assert!(should_coalesce_update(
        PenPhase::Contact,
        Some(Duration::from_millis(4).as_nanos()),
        interval
    ));
    assert!(!should_coalesce_update(
        PenPhase::Contact,
        Some(Duration::from_millis(5).as_nanos()),
        interval
    ));
    assert!(!should_coalesce_update(
        PenPhase::Down,
        Some(Duration::ZERO.as_nanos()),
        interval
    ));
    assert!(!should_coalesce_update(
        PenPhase::Up,
        Some(Duration::ZERO.as_nanos()),
        interval
    ));
}

#[test]
fn first_update_is_never_coalesced() {
    assert!(!should_coalesce_update(PenPhase::Hover, None, 5_000_000));
    assert!(!should_coalesce_update(PenPhase::Contact, None, 5_000_000));
}

#[test]
fn first_frame_opens_the_pointer_with_a_hover() {
    let plan = injection_plan(initial_injector_state(), frame(PenPhase::Hover, 7), None, 1);
    assert_eq!(phases(&plan), [(PenPhase::Hover, true)]);
    assert_eq!(plan[0].0.pressure, 0);

    let plan = injection_plan(initial_injector_state(), frame(PenPhase::Contact, 300), None, 1);
    assert_eq!(
        phases(&plan),
        [(PenPhase::Hover, true), (PenPhase::Down, false)]
    );
    assert_eq!(plan[1].0.pressure, 300);
}

#[test]
fn a_stroke_goes_down_from_hover_and_lifts_back_to_hover() {
    let injected = run(&[
        frame(PenPhase::Hover, 0),
        frame(PenPhase::Down, 500),
        frame(PenPhase::Contact, 600),
        frame(PenPhase::Up, 0),
        frame(PenPhase::Down, 400),
    ]);

    assert_eq!(
        injected,
        [
            (PenPhase::Hover, true),
            (PenPhase::Down, false),
            (PenPhase::Contact, false),
            (PenPhase::Up, false),
            (PenPhase::Hover, false),
            (PenPhase::Down, false),
        ]
    );
}

#[test]
fn hover_while_in_contact_lifts_first() {
    let state = PenInjectorState {
        started: true,
        contacting: true,
    };
    let plan = injection_plan(state, frame(PenPhase::Hover, 9), None, 1);

    assert_eq!(
        phases(&plan),
        [(PenPhase::Up, false), (PenPhase::Hover, false)]
    );
    assert_eq!(plan[0].0.pressure, 0);
}

#[test]
fn too_frequent_updates_are_dropped_but_contact_changes_are_not() {
    let hovering = PenInjectorState {
        started: true,
        contacting: false,
    };
    let touching = PenInjectorState {
        started: true,
        contacting: true,
    };
    assert!(injection_plan(hovering, frame(PenPhase::Hover, 0), Some(1), 5).is_empty());
    assert!(injection_plan(touching, frame(PenPhase::Contact, 10), Some(1), 5).is_empty());
    assert_eq!(
        phases(&injection_plan(hovering, frame(PenPhase::Contact, 10), Some(1), 5)),
        [(PenPhase::Down, false)]
    );
    assert_eq!(
        phases(&injection_plan(touching, frame(PenPhase::Up, 0), Some(1), 5)),
        [(PenPhase::Up, false), (PenPhase::Hover, false)]
    );
}

#[test]
fn injector_bookkeeping() {
    assert_eq!(
        after_injection(PenPhase::Down),
        PenInjectorState {
            started: true,
            contacting: true
        }
    );
    assert_eq!(
        after_injection(PenPhase::Up),
        PenInjectorState {
            started: true,
            contacting: false
        }
    );
    assert!(refreshes_update_clock(PenPhase::Contact));
    assert!(!refreshes_update_clock(PenPhase::Down));
    let touching = PenInjectorState {
        started: true,
        contacting: true,
    };
    let closing = closing_frame(touching, Some(frame(PenPhase::Contact, 800))).unwrap();
    assert_eq!((closing.phase, closing.pressure), (PenPhase::Up, 0));
    assert_eq!(closing_frame(after_injection(PenPhase::Hover), Some(frame(PenPhase::Hover, 0))), None);
    assert_eq!(closing_frame(touching, None), None);
}

#[test]
fn update_interval_is_limited_to_twenty_milliseconds() {
    assert_eq!(update_interval_nanos(5).unwrap(), 5_000_000);
    assert_eq!(update_interval_nanos(20).unwrap(), 20_000_000);
    assert!(update_interval_nanos(0).is_err());
    assert!(update_interval_nanos(21).is_err());
}

#[test]
fn packet_contains_pressure_tilt_and_contact_flags() {
    let packet = pen_packet(
        PenInput {
            x: -100,
            y: 200,
            pressure: 512,
            tilt_x: Some(-45),
            tilt_y: Some(30),
            rotation: None,
            phase: PenPhase::Down,
            position_changed: true,
        },
        true,
    );
    assert_eq!(packet.x, -100);
    assert_eq!(packet.pressure, 512);
    assert_eq!(packet.tilt_x, -45);
    assert_eq!(packet.tilt_y, 30);
    assert!(!packet.mask.rotation);
    assert!(packet.mask.pressure);
    assert!(packet.flags.down);
    assert!(packet.flags.new);
}

#[test]
fn packet_masks_optional_axes_independently() {
    let packet = pen_packet(
        PenInput {
            x: 10,
            y: 20,
            pressure: 0,
            tilt_x: None,
            tilt_y: Some(15),
            rotation: None,
            phase: PenPhase::Hover,
            position_changed: false,
        },
        false,
    );

    assert!(!packet.mask.tilt_x);
    assert!(packet.mask.tilt_y);
    assert!(!packet.mask.rotation);
    assert!(packet.flags.update);
    assert!(!packet.flags.in_contact);
}

#[test]
fn lift_packet_ends_contact() {
    let packet = pen_packet(
        PenInput {
            x: 10,
            y: 20,
            pressure: 0,
            tilt_x: None,
            tilt_y: None,
            rotation: None,
            phase: PenPhase::Up,
            position_changed: false,
        },
        false,
    );

    assert!(packet.flags.up);
    assert!(!packet.flags.in_contact);
}

#[test]
fn out_of_range_packet_ends_pointer_lifetime() {
    let packet = out_of_range_packet(PenInput {
        x: 10,
        y: 20,
        pressure: 0,
        tilt_x: None,
        tilt_y: None,
        rotation: None,
        phase: PenPhase::Hover,
        position_changed: false,
    });

    assert!(packet.flags.update);
    assert!(!packet.flags.in_range);
}

#[test]
fn closing_packet_leaves_range() {
    let packet = out_of_range_packet(PenInput {
        x: 10,
        y: 20,
        pressure: 300,
        tilt_x: Some(3),
        tilt_y: None,
        rotation: Some(90),
        phase: PenPhase::Contact,
        position_changed: false,
    });

    assert!(packet.flags.update);
    assert!(!packet.flags.in_range);
    assert_eq!((packet.x, packet.y, packet.pressure, packet.tilt_x, packet.rotation), (10, 20, 0, 0, 0));
    let contact = pen_packet(frame(PenPhase::Contact, 80), false);
    assert!(contact.flags.in_contact && contact.flags.update && contact.flags.in_range);
    assert!(!contact.flags.new && !contact.flags.down && !contact.flags.up);
}
