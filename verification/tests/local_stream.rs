use std::io::{Cursor, Write};

use remouseable::app::{action_json_line, process_events, AppScaler, Config, Orientation};
use remouseable::event::{EvdevEvent, ABS_PRESSURE, ABS_X, ABS_Y, EV_ABS, RAW_EVENT_SIZE};
use remouseable::runtime::{HostAction, HostDriver, MouseButton};
use remouseable::scale::{AxisScale, PositionScaler};

fn encode(events: &[EvdevEvent]) -> Vec<u8> {
    events
        .iter()
        .flat_map(|event| {
            let mut bytes = [0_u8; RAW_EVENT_SIZE];
            bytes[0..4].copy_from_slice(&event.seconds.to_le_bytes());
            bytes[4..8].copy_from_slice(&event.microseconds.to_le_bytes());
            bytes[8..10].copy_from_slice(&event.event_type.to_le_bytes());
            bytes[10..12].copy_from_slice(&event.code.to_le_bytes());
            bytes[12..16].copy_from_slice(&event.value.to_le_bytes());
            bytes
        })
        .collect()
}

fn event(code: u16, value: i32) -> EvdevEvent {
    EvdevEvent {
        event_type: EV_ABS,
        code,
        value,
        ..EvdevEvent::default()
    }
}

struct ConfiguredScaler(AppScaler);

fn scale_axis(axis: AxisScale) -> i32 {
    (f64::from(axis.target) / f64::from(axis.source) * f64::from(axis.value)) as i32
}

impl PositionScaler for ConfiguredScaler {
    fn scale(&self, x: i32, y: i32) -> (i32, i32) {
        let (x_axis, y_axis) = self.0.axes(x, y);
        (scale_axis(x_axis), scale_axis(y_axis))
    }
}

struct JsonDriver<W>(W);

impl<W: Write> JsonDriver<W> {
    fn write_action(&mut self, action: HostAction) -> std::io::Result<()> {
        self.0
            .write_all(format!("{}\n", action_json_line(action)).as_bytes())
    }
}

impl<W: Write> HostDriver for JsonDriver<W> {
    type Error = std::io::Error;

    fn screen_size(&self) -> Result<(i32, i32), Self::Error> {
        Ok((200, 200))
    }

    fn move_mouse(&mut self, x: i32, y: i32) -> Result<(), Self::Error> {
        self.write_action(HostAction::Move { x, y })
    }

    fn drag_mouse(&mut self, x: i32, y: i32) -> Result<(), Self::Error> {
        self.write_action(HostAction::Drag { x, y })
    }

    fn press(&mut self, button: MouseButton) -> Result<(), Self::Error> {
        self.write_action(HostAction::Press(button))
    }

    fn release(&mut self, button: MouseButton) -> Result<(), Self::Error> {
        self.write_action(HostAction::Release(button))
    }
}

fn run(input: Vec<u8>, config: Config) -> (Result<(), remouseable::app::AppError>, String) {
    let mut output = Vec::new();
    let mut driver = JsonDriver(&mut output);
    let result = process_events(
        Cursor::new(input),
        ConfiguredScaler(AppScaler::from_config(config)),
        &mut driver,
        config,
    );
    (result, String::from_utf8(output).unwrap())
}

const CONFIG: Config = Config {
    orientation: Orientation::Right,
    tablet_width: 100,
    tablet_height: 100,
    screen_width: 200,
    screen_height: 200,
    pressure_threshold: 1000,
    disable_drag_event: false,
};

#[test]
fn processes_local_stream_end_to_end() {
    let input = encode(&[
        event(ABS_X, 25),
        event(ABS_Y, 50),
        event(ABS_PRESSURE, 2000),
        event(ABS_X, 50),
        event(ABS_Y, 100),
        event(ABS_PRESSURE, 0),
    ]);
    let (result, output) = run(input, CONFIG);

    result.unwrap();
    assert_eq!(
        output,
        "{\"action\":\"move\",\"x\":50,\"y\":100}\n\
         {\"action\":\"press\",\"button\":\"left\"}\n\
         {\"action\":\"drag\",\"x\":100,\"y\":200}\n\
         {\"action\":\"release\",\"button\":\"left\"}\n"
    );
}

#[test]
fn disabled_drags_and_other_event_types_and_truncated_streams() {
    let mut input = encode(&[
        event(ABS_PRESSURE, 2000),
        EvdevEvent {
            event_type: 1,
            code: ABS_X,
            value: 7,
            ..EvdevEvent::default()
        },
        event(ABS_X, 50),
        event(ABS_Y, 100),
    ]);
    let (result, output) = run(
        input.clone(),
        Config {
            disable_drag_event: true,
            ..CONFIG
        },
    );
    result.unwrap();
    assert_eq!(
        output,
        "{\"action\":\"press\",\"button\":\"left\"}\n\
         {\"action\":\"move\",\"x\":100,\"y\":200}\n"
    );

    input.push(1);
    let (result, _) = run(input, CONFIG);
    assert!(matches!(
        result,
        Err(remouseable::app::AppError::Runtime(remouseable::runtime::RuntimeError::Source(_)))
    ));
}
