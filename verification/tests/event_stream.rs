use std::io::{Cursor, ErrorKind, Read};

use remouseable::event::{
    event_code_name, event_type_name, ByteReader, EvdevEvent, EventSource, FilteringEventSource,
    ReaderEventSource, SelectingEventSource, ABS_PRESSURE, ABS_TILT_X, ABS_TILT_Y, ABS_X, ABS_Y,
    BTN_TOOL_PEN, BTN_TOOL_RUBBER, EV_ABS, EV_KEY, EV_SYN, RAW_EVENT_SIZE, SYN_REPORT,
};

struct OneByteAtATime<R>(R);

impl<R: Read> Read for OneByteAtATime<R> {
    fn read(&mut self, buffer: &mut [u8]) -> std::io::Result<usize> {
        if buffer.is_empty() {
            return Ok(0);
        }
        self.0.read(&mut buffer[..1])
    }
}

impl<R: Read> ByteReader for OneByteAtATime<R> {
    fn read_bytes(&mut self, buffer: &mut [u8]) -> std::io::Result<usize> {
        Read::read(self, buffer)
    }

    fn read_exact_bytes(&mut self, buffer: &mut [u8]) -> std::io::Result<()> {
        Read::read_exact(self, buffer)
    }
}

struct CountingReader<R> {
    inner: R,
    reads: usize,
}

impl<R: Read> Read for CountingReader<R> {
    fn read(&mut self, buffer: &mut [u8]) -> std::io::Result<usize> {
        self.reads += 1;
        self.inner.read(buffer)
    }
}

impl<R: Read> ByteReader for CountingReader<R> {
    fn read_bytes(&mut self, buffer: &mut [u8]) -> std::io::Result<usize> {
        Read::read(self, buffer)
    }

    fn read_exact_bytes(&mut self, buffer: &mut [u8]) -> std::io::Result<()> {
        Read::read_exact(self, buffer)
    }
}

fn encode(event: EvdevEvent) -> [u8; RAW_EVENT_SIZE] {
    let mut bytes = [0_u8; RAW_EVENT_SIZE];
    bytes[0..4].copy_from_slice(&event.seconds.to_le_bytes());
    bytes[4..8].copy_from_slice(&event.microseconds.to_le_bytes());
    bytes[8..10].copy_from_slice(&event.event_type.to_le_bytes());
    bytes[10..12].copy_from_slice(&event.code.to_le_bytes());
    bytes[12..16].copy_from_slice(&event.value.to_le_bytes());
    bytes
}

#[test]
fn decodes_tablet_event_layout() {
    let expected = EvdevEvent {
        seconds: 1,
        microseconds: 2,
        event_type: EV_ABS,
        code: ABS_PRESSURE,
        value: -42,
    };

    assert_eq!(EvdevEvent::from_le_bytes(encode(expected)), expected);
}

#[test]
fn names_pen_frame_events() {
    assert_eq!(event_type_name(EV_SYN), "EV_SYN");
    assert_eq!(event_type_name(EV_KEY), "EV_KEY");
    assert_eq!(event_code_name(EV_SYN, SYN_REPORT), "SYN_REPORT");
    assert_eq!(event_code_name(EV_KEY, BTN_TOOL_PEN), "BTN_TOOL_PEN");
    assert_eq!(event_code_name(EV_KEY, BTN_TOOL_RUBBER), "BTN_TOOL_RUBBER");
    assert_eq!(event_code_name(EV_ABS, ABS_TILT_X), "ABS_TILT_X");
    assert_eq!(event_code_name(EV_ABS, ABS_TILT_Y), "ABS_TILT_Y");
}

#[test]
fn reader_source_reads_multiple_events_and_clean_eof() {
    let first = EvdevEvent {
        event_type: EV_ABS,
        code: ABS_X,
        value: 12,
        ..EvdevEvent::default()
    };
    let second = EvdevEvent {
        event_type: EV_ABS,
        code: ABS_Y,
        value: 34,
        ..EvdevEvent::default()
    };
    let bytes = [encode(first), encode(second)].concat();
    let mut source = ReaderEventSource::new(Cursor::new(bytes));

    assert_eq!(source.next_event().unwrap(), Some(first));
    assert_eq!(source.next_event().unwrap(), Some(second));
    assert_eq!(source.next_event().unwrap(), None);
    assert_eq!(source.next_event().unwrap(), None);
}

#[test]
fn reader_source_reads_complete_event_in_one_call() {
    let expected = EvdevEvent {
        event_type: EV_ABS,
        code: ABS_X,
        value: 12,
        ..EvdevEvent::default()
    };
    let reader = CountingReader {
        inner: Cursor::new(encode(expected)),
        reads: 0,
    };
    let mut source = ReaderEventSource::new(reader);

    assert_eq!(source.next_event().unwrap(), Some(expected));
    assert_eq!(source.into_inner().reads, 1);
}

#[test]
fn reader_source_rejects_partial_event() {
    let mut source = ReaderEventSource::new(Cursor::new([0_u8; RAW_EVENT_SIZE - 1]));

    assert_eq!(
        source.next_event().unwrap_err().kind(),
        ErrorKind::UnexpectedEof
    );
}

#[test]
fn reader_source_accepts_fragmented_stream_reads() {
    let expected = EvdevEvent {
        event_type: EV_ABS,
        code: ABS_PRESSURE,
        value: 1234,
        ..EvdevEvent::default()
    };
    let reader = OneByteAtATime(Cursor::new(encode(expected)));
    let mut source = ReaderEventSource::new(reader);

    assert_eq!(source.next_event().unwrap(), Some(expected));
    assert_eq!(source.next_event().unwrap(), None);
}

#[test]
fn selecting_source_keeps_selected_types() {
    let events = [
        EvdevEvent {
            event_type: 1,
            ..EvdevEvent::default()
        },
        EvdevEvent {
            event_type: EV_ABS,
            ..EvdevEvent::default()
        },
    ];
    let bytes = events.map(encode).concat();
    let reader = ReaderEventSource::new(Cursor::new(bytes));
    let mut source = SelectingEventSource::new(reader, vec![EV_ABS]);

    assert_eq!(source.next_event().unwrap(), Some(events[1]));
    assert_eq!(source.next_event().unwrap(), None);
}

#[test]
fn filtering_source_removes_filtered_types() {
    let events = [
        EvdevEvent {
            event_type: EV_ABS,
            ..EvdevEvent::default()
        },
        EvdevEvent {
            event_type: 1,
            ..EvdevEvent::default()
        },
    ];
    let bytes = events.map(encode).concat();
    let reader = ReaderEventSource::new(Cursor::new(bytes));
    let mut source = FilteringEventSource::new(reader, vec![EV_ABS]);

    assert_eq!(source.next_event().unwrap(), Some(events[1]));
    assert_eq!(source.next_event().unwrap(), None);
}

#[test]
fn record_round_trips_extreme_values() {
    let event = EvdevEvent {
        seconds: u32::MAX,
        microseconds: 0x0102_0304,
        event_type: 0xfffe,
        code: 0x8001,
        value: i32::MIN,
    };
    let bytes = encode(event);

    assert_eq!(bytes[12..16], [0x00, 0x00, 0x00, 0x80]);
    assert_eq!(EvdevEvent::from_le_bytes(bytes), event);
}

#[test]
fn unknown_types_and_codes_have_empty_names() {
    assert_eq!(event_type_name(EV_ABS), "EV_ABS");
    assert_eq!(event_type_name(0x11), "");
    assert_eq!(event_code_name(EV_ABS, ABS_PRESSURE), "ABS_PRESSURE");
    assert_eq!(event_code_name(EV_KEY, ABS_X), "");
    assert_eq!(event_code_name(EV_ABS, 0x30), "");
}

#[test]
fn selection_and_filtering_split_a_stream() {
    let events = [
        EvdevEvent {
            event_type: EV_SYN,
            value: 1,
            ..EvdevEvent::default()
        },
        EvdevEvent {
            event_type: EV_ABS,
            value: 2,
            ..EvdevEvent::default()
        },
        EvdevEvent {
            event_type: EV_KEY,
            value: 3,
            ..EvdevEvent::default()
        },
        EvdevEvent {
            event_type: EV_ABS,
            value: 4,
            ..EvdevEvent::default()
        },
    ];
    let bytes = events.map(encode).concat();
    let mut kept = Vec::new();
    let mut selecting =
        SelectingEventSource::new(ReaderEventSource::new(Cursor::new(bytes.clone())), vec![EV_ABS, EV_KEY]);
    while let Some(event) = selecting.next_event().unwrap() {
        kept.push(event.value);
    }
    let mut dropped = Vec::new();
    let mut filtering =
        FilteringEventSource::new(ReaderEventSource::new(Cursor::new(bytes)), vec![EV_ABS, EV_KEY]);
    while let Some(event) = filtering.next_event().unwrap() {
        dropped.push(event.value);
    }

    assert_eq!(kept, [2, 3, 4]);
    assert_eq!(dropped, [1]);
}

#[test]
fn reader_source_reports_error_after_partial_second_record() {
    let first = EvdevEvent {
        event_type: EV_ABS,
        code: ABS_X,
        value: 7,
        ..EvdevEvent::default()
    };
    let mut bytes = encode(first).to_vec();
    bytes.extend_from_slice(&[1, 2, 3]);
    let mut source = ReaderEventSource::new(Cursor::new(bytes));

    assert_eq!(source.next_event().unwrap(), Some(first));
    assert_eq!(
        source.next_event().unwrap_err().kind(),
        ErrorKind::UnexpectedEof
    );
}
