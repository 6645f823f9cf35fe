use remouseable::driver::{
    monitor_info, resolve_driver_kind, selected_display, DisplayDescription, DisplayMetrics,
    DriverKind, MonitorInfo,
};
use remouseable::hyprland::{focused_index, json_number_text, json_number_text_before, number_text};
use remouseable::runtime::{HostAction, MouseButton};
use remouseable::uinput::{
    initial_pointer_state, initial_tablet_state, pointer_closing, pointer_step, tablet_axis_max,
    tablet_closing, tablet_step, PointerSignal, PointerState, TabletSignal, TabletState,
};

fn display(id: u32, name: &str, friendly_name: &str, is_primary: bool) -> DisplayDescription {
    DisplayDescription {
        id,
        name: name.to_owned(),
        friendly_name: friendly_name.to_owned(),
        x: -1920,
        y: 0,
        width: 1920,
        height: 1080,
        is_primary,
    }
}

fn monitor(id: u32, x: i32, width: i32, is_primary: bool) -> MonitorInfo {
    MonitorInfo {
        id,
        label: String::new(),
        x,
        y: 0,
        width,
        height: 1000,
        is_primary,
    }
}

#[test]
fn monitor_labels_name_position_size_and_primary() {
    let info = monitor_info(0, &display(7, "DP-1", "  Office Screen ", true)).unwrap();
    assert_eq!(info.label, "1: Office Screen - 1920x1080 at -1920,0 (Primary)");
    assert_eq!((info.id, info.x, info.width, info.height), (7, -1920, 1920, 1080));
    assert!(info.is_primary);

    let info = monitor_info(2, &display(8, " HDMI-A-1 ", "   ", false)).unwrap();
    assert_eq!(info.label, "3: HDMI-A-1 - 1920x1080 at -1920,0");
}

#[test]
fn monitor_sizes_must_fit_coordinates() {
    let mut huge = display(1, "X", "", false);
    huge.width = u32::MAX;
    assert!(monitor_info(0, &huge).is_err());
    huge.width = 100;
    huge.height = 2_147_483_648;
    assert!(monitor_info(0, &huge).is_err());
    huge.height = 2_147_483_647;
    assert_eq!(monitor_info(0, &huge).unwrap().height, i32::MAX);
}

#[test]
fn selected_display_prefers_compositor_size_without_a_request() {
    let monitors = [monitor(1, -1000, 1000, false), monitor(2, 0, 2000, true)];

    assert_eq!(
        selected_display(&monitors, None, Some((1280, 800)), false).unwrap(),
        DisplayMetrics { x: 0, y: 0, width: 1280, height: 800 }
    );
    assert_eq!(
        selected_display(&monitors, Some(1), Some((1280, 800)), true).unwrap(),
        DisplayMetrics { x: 0, y: 0, width: 1000, height: 1000 }
    );
    assert_eq!(
        selected_display(&monitors, None, None, true).unwrap(),
        DisplayMetrics { x: 1000, y: 0, width: 2000, height: 1000 }
    );
    assert!(selected_display(&monitors, Some(3), None, false).is_err());
    assert!(selected_display(&[], None, None, false).is_err());
}

#[test]
fn automatic_driver_choice_depends_on_the_host() {
    assert_eq!(resolve_driver_kind(DriverKind::Auto, true, false), DriverKind::Uinput);
    assert_eq!(resolve_driver_kind(DriverKind::Auto, false, true), DriverKind::WindowsPen);
    assert_eq!(resolve_driver_kind(DriverKind::Auto, false, false), DriverKind::Enigo);
    assert_eq!(resolve_driver_kind(DriverKind::UinputTablet, true, false), DriverKind::UinputTablet);
    assert_eq!(resolve_driver_kind(DriverKind::Enigo, true, true), DriverKind::Enigo);
}

#[test]
fn relative_mouse_homes_first_then_moves_by_difference() {
    let state = initial_pointer_state();
    let (state, signals) = pointer_step(state, 1920, 1080, HostAction::Move { x: 100, y: 200 });
    assert_eq!(
        signals,
        [
            PointerSignal::Motion { dx: -3840, dy: -2160 },
            PointerSignal::Motion { dx: 100, dy: 200 },
        ]
    );
    let (state, signals) = pointer_step(state, 1920, 1080, HostAction::Drag { x: 110, y: 180 });
    assert_eq!(signals, [PointerSignal::Motion { dx: 10, dy: -20 }]);
    let (state, signals) = pointer_step(state, 1920, 1080, HostAction::Move { x: 110, y: 180 });
    assert!(signals.is_empty());
    let (state, signals) = pointer_step(state, 1920, 1080, HostAction::Press(MouseButton::Left));
    assert_eq!(
        signals,
        [PointerSignal::Button { button: MouseButton::Left, pressed: true }]
    );
    assert_eq!(
        state,
        PointerState { last_position: Some((110, 180)), left_pressed: true }
    );
    assert_eq!(
        pointer_closing(state),
        [PointerSignal::Button { button: MouseButton::Left, pressed: false }]
    );
    let (state, _) = pointer_step(state, 1920, 1080, HostAction::Release(MouseButton::Left));
    assert!(pointer_closing(state).is_empty());
}

#[test]
fn tablet_reports_new_positions_and_left_button_contact() {
    let state = initial_tablet_state();
    let (state, signals) = tablet_step(state, HostAction::Move { x: 5, y: 6 });
    assert_eq!(
        signals,
        [TabletSignal::Tool(true), TabletSignal::X(5), TabletSignal::Y(6)]
    );
    let (state, signals) = tablet_step(state, HostAction::Drag { x: 5, y: 6 });
    assert!(signals.is_empty());
    let (same, signals) = tablet_step(state, HostAction::Press(MouseButton::Right));
    assert!(signals.is_empty());
    assert_eq!(same, state);
    let (state, signals) = tablet_step(state, HostAction::Press(MouseButton::Left));
    assert_eq!(
        signals,
        [TabletSignal::Tool(true), TabletSignal::Touch(true), TabletSignal::Pressure(1024)]
    );
    assert_eq!(state, TabletState { last_position: Some((5, 6)), touching: true });
    let (lift, leave) = tablet_closing(state);
    assert_eq!(lift, [TabletSignal::Touch(false), TabletSignal::Pressure(0)]);
    assert_eq!(leave, [TabletSignal::Tool(false)]);
    let (state, signals) = tablet_step(state, HostAction::Release(MouseButton::Left));
    assert_eq!(signals, [TabletSignal::Touch(false), TabletSignal::Pressure(0)]);
    assert!(tablet_closing(state).0.is_empty());
    assert_eq!(tablet_axis_max(1920), 1919);
    assert_eq!(tablet_axis_max(i32::MIN), i32::MIN);
}

#[test]
fn hyprland_monitor_numbers_are_read_as_text() {
    let monitors = r#"[{
            "width": 2560,
            "scale": 2.00,
            "focused": false
        },{
            "width": 1920,
            "height": 1200,
            "activeWorkspace": { "id": 1, "name": "1" },
            "scale": 1.50,
            "focused": true
        }]"#;
    let focused = focused_index(monitors);

    assert_eq!(&monitors[focused..focused + 15], "\"focused\": true");
    assert_eq!(
        json_number_text_before(monitors, "width", focused).as_deref(),
        Some("1920")
    );
    assert_eq!(json_number_text(monitors, "width").as_deref(), Some("2560"));
    assert_eq!(
        json_number_text_before(monitors, "scale", focused).as_deref(),
        Some("1.50")
    );
    assert_eq!(json_number_text(monitors, "refresh"), None);
    assert_eq!(focused_index("[]"), 2);
    assert_eq!(number_text("  -12.5e3, "), "-12.5");
    assert_eq!(number_text("true"), "");
    assert_eq!(
        json_number_text_before(monitors, "width", 5),
        None
    );
}
