use std::io::Cursor;

use remouseable::app::debug_events;
use remouseable::event::{EvdevEvent, ABS_PRESSURE, ABS_X, EV_ABS, EV_KEY, RAW_EVENT_SIZE};

fn encode(events: &[EvdevEvent]) -> Vec<u8> {
    events
        .iter()
        .flat_map(|event| {
            let mut bytes = [0_u8; RAW_EVENT_SIZE];
            bytes[0..4].copy_from_slice(&event.seconds.to_le_bytes());
            bytes[4..8].copy_from_slice(&event.microseconds.to_le_bytes());
            bytes[8..10].copy_from_slice(&event.event_type.to_le_bytes());
            bytes[10..12].copy_from_slice(&event.code.to_le_bytes());
            bytes[12..16].copy_from_slice(&event.value.to_le_bytes());
            bytes
        })
        .collect()
}

fn event(code: u16, value: i32) -> EvdevEvent {
    EvdevEvent {
        event_type: EV_ABS,
        code,
        value,
        ..EvdevEvent::default()
    }
}

#[test]
fn writes_debug_events() {
    let input = encode(&[event(ABS_PRESSURE, 2000)]);
    let mut output = String::new();

    debug_events(Cursor::new(input), &mut output).unwrap();

    assert_eq!(
        output,
        "{\"eventType\":3,\"eventTypeName\":\"EV_ABS\",\"eventCode\":24,\"eventCodeName\":\"ABS_PRESSURE\",\"eventValue\":2000}\n"
    );
}

#[test]
fn debug_output_skips_other_event_types_and_reports_truncation() {
    let mut input = encode(&[
        EvdevEvent {
            event_type: EV_KEY,
            code: 0x140,
            value: 1,
            ..EvdevEvent::default()
        },
        event(ABS_X, -5),
    ]);
    let mut output = String::new();
    debug_events(Cursor::new(input.clone()), &mut output).unwrap();
    assert_eq!(
        output,
        "{\"eventType\":3,\"eventTypeName\":\"EV_ABS\",\"eventCode\":0,\"eventCodeName\":\"ABS_X\",\"eventValue\":-5}\n"
    );

    input.push(7);
    let mut output = String::new();
    assert!(matches!(
        debug_events(Cursor::new(input), &mut output),
        Err(remouseable::app::AppError::Input(_))
    ));
}

#[test]
fn debug_output_keeps_lines_of_records_before_a_failed_read() {
    let mut input = encode(&[event(ABS_X, 12), event(ABS_PRESSURE, 7)]);
    input.extend_from_slice(&[1, 2, 3]);
    let mut output = String::new();
    assert!(matches!(
        debug_events(Cursor::new(input), &mut output),
        Err(remouseable::app::AppError::Input(_))
    ));
    assert_eq!(
        output,
        "{\"eventType\":3,\"eventTypeName\":\"EV_ABS\",\"eventCode\":0,\"eventCodeName\":\"ABS_X\",\"eventValue\":12}\n\
         {\"eventType\":3,\"eventTypeName\":\"EV_ABS\",\"eventCode\":24,\"eventCodeName\":\"ABS_PRESSURE\",\"eventValue\":7}\n"
    );
}

#[test]
fn debug_output_of_an_empty_stream_is_empty() {
    let mut output = String::from("kept");
    debug_events(Cursor::new(Vec::new()), &mut output).unwrap();
    assert_eq!(output, "kept");
}
