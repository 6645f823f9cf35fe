use remouseable::driver::pen_fallback_kind;
use remouseable::options::parse_pressure_threshold;
use remouseable::app::{action_json_line, button_name, event_json_line, AppScaler, Config, Orientation};
use remouseable::driver::DriverKind;
use remouseable::event::{EvdevEvent, ABS_PRESSURE, ABS_X, EV_ABS, EV_KEY};
use remouseable::options::{
    host_driver_name, orientation_name, parse_host_driver, parse_orientation, prompt_answer,
    prompt_with_default, DEFAULT_EVENT_FILE,
};
use remouseable::runtime::{HostAction, MouseButton};
use remouseable::scale::{
    AxisScale, LeftPositionScaler, RightPositionScaler, VerticalPositionScaler,
    DEFAULT_TABLET_HEIGHT, DEFAULT_TABLET_WIDTH,
};

#[test]
fn event_file_prompt_uses_default_for_blank_input() {
    let mut output = Vec::new();

    let event_file = prompt_with_default(
        "\n".as_bytes(),
        &mut output,
        "Event file",
        DEFAULT_EVENT_FILE,
    )
    .unwrap();

    assert_eq!(event_file, DEFAULT_EVENT_FILE);
    assert_eq!(
        String::from_utf8(output).unwrap(),
        "Event file [/dev/input/event1]: "
    );
}

#[test]
fn event_file_prompt_uses_entered_value() {
    let mut output = Vec::new();

    let event_file = prompt_with_default(
        "/dev/input/event2\n".as_bytes(),
        &mut output,
        "Event file",
        DEFAULT_EVENT_FILE,
    )
    .unwrap();

    assert_eq!(event_file, "/dev/input/event2");
}

#[test]
fn prompt_answer_trims_and_falls_back() {
    assert_eq!(prompt_answer("  value \r\n", "default"), "value");
    assert_eq!(prompt_answer(" \t\n", "default"), "default");
    assert_eq!(prompt_answer("", "default"), "default");
    let mut output = Vec::new();
    assert_eq!(
        prompt_with_default("".as_bytes(), &mut output, "Password", "").unwrap(),
        ""
    );
    assert_eq!(String::from_utf8(output).unwrap(), "Password []: ");
}

#[test]
fn settings_names_parse_back() {
    for orientation in [Orientation::Right, Orientation::Left, Orientation::Vertical] {
        assert_eq!(
            parse_orientation(orientation_name(orientation)).unwrap(),
            orientation
        );
    }
    for kind in [
        DriverKind::Auto,
        DriverKind::Enigo,
        DriverKind::Uinput,
        DriverKind::UinputTablet,
        DriverKind::WindowsPen,
    ] {
        assert_eq!(parse_host_driver(host_driver_name(kind)).unwrap(), kind);
    }
}

#[test]
fn settings_names_ignore_case_and_whitespace() {
    assert_eq!(parse_orientation("  Vertical\n").unwrap(), Orientation::Vertical);
    assert_eq!(parse_host_driver("UINPUT-Tablet").unwrap(), DriverKind::UinputTablet);
    assert_eq!(
        parse_orientation("up").unwrap_err().kind(),
        std::io::ErrorKind::InvalidInput
    );
    assert!(parse_host_driver("uinput tablet").is_err());
}

#[test]
fn writes_debug_event_json() {
    let event = EvdevEvent {
        event_type: EV_ABS,
        code: ABS_PRESSURE,
        value: 2000,
        ..EvdevEvent::default()
    };

    assert_eq!(
        event_json_line(event),
        "{\"eventType\":3,\"eventTypeName\":\"EV_ABS\",\"eventCode\":24,\"eventCodeName\":\"ABS_PRESSURE\",\"eventValue\":2000}"
    );
    let unnamed = EvdevEvent {
        event_type: EV_KEY,
        code: ABS_X,
        value: -7,
        ..EvdevEvent::default()
    };
    assert_eq!(
        event_json_line(unnamed),
        "{\"eventType\":1,\"eventTypeName\":\"EV_KEY\",\"eventCode\":0,\"eventCodeName\":\"\",\"eventValue\":-7}"
    );
}

#[test]
fn writes_action_json() {
    assert_eq!(
        action_json_line(HostAction::Move { x: 50, y: 100 }),
        "{\"action\":\"move\",\"x\":50,\"y\":100}"
    );
    assert_eq!(
        action_json_line(HostAction::Press(MouseButton::Left)),
        "{\"action\":\"press\",\"button\":\"left\"}"
    );
    assert_eq!(
        action_json_line(HostAction::Drag { x: -100, y: 200 }),
        "{\"action\":\"drag\",\"x\":-100,\"y\":200}"
    );
    assert_eq!(
        action_json_line(HostAction::Release(MouseButton::Middle)),
        "{\"action\":\"release\",\"button\":\"middle\"}"
    );
    assert_eq!(button_name(MouseButton::Right), "right");
}

#[test]
fn configuration_selects_orientation_axes() {
    let config = Config {
        orientation: Orientation::Left,
        tablet_width: DEFAULT_TABLET_WIDTH,
        tablet_height: DEFAULT_TABLET_HEIGHT,
        screen_width: 1920,
        screen_height: 1080,
        pressure_threshold: 1000,
        disable_drag_event: false,
    };
    let scaler = AppScaler::from_config(config);
    assert!(scaler.axes_in_range(100, 200));
    assert_eq!(
        scaler.axes(100, 200),
        (
            AxisScale {
                value: DEFAULT_TABLET_WIDTH - 100,
                target: 1920,
                source: DEFAULT_TABLET_WIDTH
            },
            AxisScale {
                value: DEFAULT_TABLET_HEIGHT - 200,
                target: 1080,
                source: DEFAULT_TABLET_HEIGHT
            },
        )
    );
    let vertical = AppScaler::from_config(Config {
        orientation: Orientation::Vertical,
        ..config
    });
    assert_eq!(
        vertical.axes(100, 200),
        (
            AxisScale {
                value: 200,
                target: 1920,
                source: DEFAULT_TABLET_HEIGHT
            },
            AxisScale {
                value: DEFAULT_TABLET_WIDTH - 100,
                target: 1080,
                source: DEFAULT_TABLET_WIDTH
            },
        )
    );
    assert!(!vertical.axes_in_range(i32::MIN, 0));
}

#[test]
fn position_scalers_pick_axes_per_orientation() {
    let right = RightPositionScaler {
        tablet_width: 400,
        tablet_height: 200,
        screen_width: 100,
        screen_height: 50,
    };
    assert_eq!(
        right.axes(10, 20),
        (
            AxisScale { value: 10, target: 100, source: 400 },
            AxisScale { value: 20, target: 50, source: 200 },
        )
    );
    let left = LeftPositionScaler {
        tablet_width: 400,
        tablet_height: 200,
        screen_width: 100,
        screen_height: 50,
    };
    assert_eq!(
        left.axes(10, 20),
        (
            AxisScale { value: 390, target: 100, source: 400 },
            AxisScale { value: 180, target: 50, source: 200 },
        )
    );
    let vertical = VerticalPositionScaler {
        tablet_width: 400,
        tablet_height: 200,
        screen_width: 100,
        screen_height: 50,
    };
    assert_eq!(
        vertical.axes(10, 20),
        (
            AxisScale { value: 20, target: 100, source: 200 },
            AxisScale { value: 390, target: 50, source: 400 },
        )
    );
}

#[test]
fn pressure_threshold_parses_trimmed_integers() {
    assert_eq!(parse_pressure_threshold(" 1500\n").unwrap(), 1500);
    assert_eq!(parse_pressure_threshold("-3").unwrap(), -3);
    assert_eq!(
        parse_pressure_threshold("15.5").unwrap_err().kind(),
        std::io::ErrorKind::InvalidInput
    );
    assert!(parse_pressure_threshold("").is_err());
    assert!(parse_pressure_threshold("2147483648").is_err());
}

#[test]
fn only_an_automatic_choice_falls_back_from_the_pen_driver() {
    assert_eq!(pen_fallback_kind(DriverKind::Auto), Some(DriverKind::Enigo));
    assert_eq!(pen_fallback_kind(DriverKind::WindowsPen), None);
}
