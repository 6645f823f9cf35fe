use std::collections::VecDeque;

use remouseable::event::{
    EvdevEvent, EventSource, ABS_PRESSURE, ABS_TILT_X, ABS_TILT_Y, ABS_X, ABS_Y, EV_ABS, EV_SYN,
    SYN_REPORT,
};
use remouseable::pen::{
    normalize_tilt, normalize_u32, transform_rotation, transform_tilt,
    EvdevPenFrameSource, PenCalibration, PenDriver, PenInput, PenOrientation, PenPhase,
    PenRuntime, PenSource,
};
use remouseable::scale::PositionScaler;

struct Events(VecDeque<EvdevEvent>);

struct IdentityScaler;

impl PositionScaler for IdentityScaler {
    fn scale(&self, x: i32, y: i32) -> (i32, i32) {
        (x, y)
    }
}

#[derive(Default)]
struct Driver(Vec<PenInput>);

impl PenDriver for Driver {
    type Error = std::io::Error;

    fn inject_pen(&mut self, input: PenInput) -> Result<(), Self::Error> {
        self.0.push(input);
        Ok(())
    }
}

impl EventSource for Events {
    fn next_event(&mut self) -> std::io::Result<Option<EvdevEvent>> {
        Ok(self.0.pop_front())
    }
}

fn event(event_type: u16, code: u16, value: i32) -> EvdevEvent {
    EvdevEvent {
        event_type,
        code,
        value,
        ..EvdevEvent::default()
    }
}

fn report() -> EvdevEvent {
    event(EV_SYN, SYN_REPORT, 0)
}

#[test]
fn assembles_frames_and_contact_phases() {
    let source = Events(
        [
            event(EV_ABS, ABS_X, 10),
            event(EV_ABS, ABS_Y, 20),
            event(EV_ABS, ABS_TILT_X, 100),
            report(),
            event(EV_ABS, ABS_PRESSURE, 1_001),
            report(),
            event(EV_ABS, ABS_PRESSURE, 1_000),
            report(),
            event(EV_ABS, ABS_PRESSURE, 999),
            report(),
        ]
        .into(),
    );
    let mut frames = EvdevPenFrameSource::new(source, 1_000);

    assert_eq!(frames.next_pen().unwrap().unwrap().phase, PenPhase::Hover);
    assert_eq!(frames.next_pen().unwrap().unwrap().phase, PenPhase::Down);
    assert_eq!(frames.next_pen().unwrap().unwrap().phase, PenPhase::Contact);
    assert_eq!(frames.next_pen().unwrap().unwrap().phase, PenPhase::Up);
    assert_eq!(frames.next_pen().unwrap(), None);
}

#[test]
fn flushes_changed_frame_at_eof() {
    let source = Events([event(EV_ABS, ABS_X, 10), event(EV_ABS, ABS_Y, 20)].into());
    let mut frames = EvdevPenFrameSource::new(source, 1_000);

    assert!(frames.next_pen().unwrap().is_some());
    assert_eq!(frames.next_pen().unwrap(), None);
}

#[test]
fn emits_pressure_and_tilt_only_frames_but_skips_unchanged_coordinates() {
    let source = Events(
        [
            event(EV_ABS, ABS_X, 10),
            event(EV_ABS, ABS_Y, 20),
            report(),
            event(EV_ABS, ABS_PRESSURE, 500),
            report(),
            event(EV_ABS, ABS_TILT_Y, -900),
            report(),
            event(EV_ABS, ABS_X, 10),
            event(EV_ABS, ABS_Y, 20),
            report(),
        ]
        .into(),
    );
    let mut frames = EvdevPenFrameSource::new(source, 1_000);

    assert!(frames.next_pen().unwrap().unwrap().position_changed);
    assert!(!frames.next_pen().unwrap().unwrap().position_changed);
    assert_eq!(frames.next_pen().unwrap().unwrap().tilt_y, Some(-900));
    assert_eq!(frames.next_pen().unwrap(), None);
}

#[test]
fn normalizes_and_rotates_tilt() {
    assert_eq!(normalize_u32(2_048, 4_095, 1_024), 512);
    assert_eq!(normalize_u32(9_999, 4_095, 1_024), 1_024);
    assert_eq!(
        transform_tilt(Some(9_000), Some(-4_500), PenOrientation::Vertical, 9_000),
        (Some(-45), Some(-90))
    );
    assert_eq!(transform_rotation(300, PenOrientation::Vertical), 30);
}

#[test]
fn rejects_invalid_calibration() {
    assert!(PenCalibration {
        pressure_max: 0,
        tilt_max: 9_000,
        rotation_max: None,
    }
    .validate()
    .is_err());
    assert!(PenCalibration {
        pressure_max: 4_095,
        tilt_max: -1,
        rotation_max: None,
    }
    .validate()
    .is_err());
}

#[test]
fn runtime_normalizes_and_applies_screen_origin() {
    let source = Events(
        [
            event(EV_ABS, ABS_X, 10),
            event(EV_ABS, ABS_Y, 20),
            event(EV_ABS, ABS_PRESSURE, 2_048),
            event(EV_ABS, ABS_TILT_X, 9_000),
            event(EV_ABS, ABS_TILT_Y, -4_500),
            report(),
        ]
        .into(),
    );
    let frames = EvdevPenFrameSource::new(source, 1_000);
    let mut runtime = PenRuntime::new(
        frames,
        IdentityScaler,
        Driver::default(),
        PenOrientation::Right,
        PenCalibration {
            pressure_max: 4_095,
            tilt_max: 9_000,
            rotation_max: None,
        },
        (-100, 50),
    )
    .unwrap();

    assert!(runtime.step().unwrap());
    let (_, _, driver) = runtime.into_parts();
    assert_eq!(driver.0[0].x, -90);
    assert_eq!(driver.0[0].y, 70);
    assert_eq!(driver.0[0].pressure, 512);
    assert_eq!(driver.0[0].tilt_x, Some(90));
    assert_eq!(driver.0[0].tilt_y, Some(-45));
}

#[test]
fn tilt_is_clamped_and_mirrored_per_orientation() {
    assert_eq!(normalize_tilt(20_000, 9_000), 90);
    assert_eq!(normalize_tilt(-20_000, 9_000), -90);
    assert_eq!(normalize_tilt(4_500, 9_000), 45);
    assert_eq!(
        transform_tilt(Some(4_500), Some(-9_000), PenOrientation::Right, 9_000),
        (Some(45), Some(-90))
    );
    assert_eq!(
        transform_tilt(Some(4_500), None, PenOrientation::Left, 9_000),
        (Some(-45), None)
    );
    assert_eq!(transform_rotation(200, PenOrientation::Left), 20);
    assert_eq!(transform_rotation(10, PenOrientation::Right), 10);
}

#[test]
fn pressure_normalization_clamps_negative_and_large_values() {
    assert_eq!(normalize_u32(0, 4_095, 1_024), 0);
    assert_eq!(normalize_u32(4_095, 4_095, 1_024), 1_024);
    assert_eq!(normalize_u32(1, 4_095, 1_024), 0);
}

#[test]
fn calibration_with_disabled_rotation_is_accepted() {
    let calibration = PenCalibration {
        pressure_max: 4_095,
        tilt_max: 9_000,
        rotation_max: None,
    };
    assert_eq!(calibration.validate().unwrap(), calibration);
    assert!(PenCalibration {
        rotation_max: Some(0),
        ..calibration
    }
    .validate()
    .is_err());
}

#[test]
fn phases_follow_down_contact_up_over_a_stroke() {
    let source = Events(
        [
            event(EV_ABS, ABS_X, 1),
            event(EV_ABS, ABS_Y, 1),
            report(),
            event(EV_ABS, ABS_PRESSURE, 2_000),
            report(),
            event(EV_ABS, ABS_X, 2),
            report(),
            event(EV_ABS, ABS_PRESSURE, 0),
            report(),
            event(EV_ABS, ABS_X, 3),
            report(),
        ]
        .into(),
    );
    let mut frames = EvdevPenFrameSource::new(source, 1_000);
    let mut phases = Vec::new();
    while let Some(frame) = frames.next_pen().unwrap() {
        phases.push(frame.phase);
    }

    assert_eq!(
        phases,
        [
            PenPhase::Hover,
            PenPhase::Down,
            PenPhase::Contact,
            PenPhase::Up,
            PenPhase::Hover
        ]
    );
}

#[test]
fn tilt_product_saturates_before_dividing() {
    assert_eq!(normalize_tilt(30_000_000, 30_000_000), 71);
    assert_eq!(normalize_tilt(-30_000_000, 30_000_000), -71);
    assert_eq!(normalize_tilt(1_000, 1_000), 90);
}
