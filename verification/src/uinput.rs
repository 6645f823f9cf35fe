use vstd::prelude::*;

use crate::driver::{home_delta, relative_delta, saturating_double};
use crate::runtime::{HostAction, MouseButton};

verus! {

/// One signal of the virtual relative mouse.
#[derive(Clone, Copy, Debug, PartialEq, Eq, Structural)]
pub enum PointerSignal {
    /// A relative motion, before the host's pointer scaling.
    Motion { dx: i32, dy: i32 },
    /// A button goes down (`pressed`) or up.
    Button { button: MouseButton, pressed: bool },
}

/// What the virtual relative mouse remembers: the last absolute position it
/// was moved to, and whether the left button is held.
#[derive(Clone, Copy, Debug, PartialEq, Eq)]
pub struct PointerState {
    pub last_position: Option<(i32, i32)>,
    pub left_pressed: bool,
}

pub fn initial_pointer_state() -> (state: PointerState)
    ensures
        state == (PointerState { last_position: None, left_pressed: false }),
{
    PointerState { last_position: None, left_pressed: false }
}

/// Whether a host action can be turned into relative motion without
/// overflow: the first move homes by twice the screen size, later moves go
/// by their difference from the last position.
pub open spec fn pointer_step_defined(
    state: PointerState,
    screen_width: i32,
    screen_height: i32,
    action: HostAction,
) -> bool {
    match action {
        HostAction::Move { x, y } | HostAction::Drag { x, y } => match state.last_position {
            None => 2 * screen_width > i32::MIN && 2 * screen_height > i32::MIN,
            Some((last_x, last_y)) => i32::MIN <= x - last_x <= i32::MAX && i32::MIN <= y - last_y
                <= i32::MAX,
        },
        _ => true,
    }
}

/// Whether `pointer_step` can take this action without overflow.
pub fn pointer_step_allowed(
    state: PointerState,
    screen_width: i32,
    screen_height: i32,
    action: HostAction,
) -> (allowed: bool)
    ensures
        allowed == pointer_step_defined(state, screen_width, screen_height, action),
{
    match action {
        HostAction::Move { x, y } | HostAction::Drag { x, y } => match state.last_position {
            None => screen_width as i64 * 2 > i32::MIN as i64 && screen_height as i64 * 2
                > i32::MIN as i64,
            Some((last_x, last_y)) => {
                let dx = x as i64 - last_x as i64;
                let dy = y as i64 - last_y as i64;
                i32::MIN as i64 <= dx && dx <= i32::MAX as i64 && i32::MIN as i64 <= dy && dy
                    <= i32::MAX as i64
            },
        },
        _ => true,
    }
}

/// The relative mouse's answer to a host action: the state it moves to and
/// the signals it emits. The first move goes home to the top-left corner and
/// then to the position; later moves go by the difference, and a move that
/// goes nowhere emits nothing. Drags move the same way. Buttons emit their
/// change, and the left button's is remembered.
pub open spec fn spec_pointer_step(
    state: PointerState,
    screen_width: i32,
    screen_height: i32,
    action: HostAction,
) -> (PointerState, Seq<PointerSignal>) {
    match action {
        HostAction::Move { x, y } | HostAction::Drag { x, y } => {
            let next = PointerState { last_position: Some((x, y)), left_pressed: state.left_pressed };
            match state.last_position {
                None => (
                    next,
                    seq![
                        PointerSignal::Motion {
                            dx: -saturating_double(screen_width as int) as i32,
                            dy: -saturating_double(screen_height as int) as i32,
                        },
                        PointerSignal::Motion { dx: x, dy: y },
                    ],
                ),
                Some((last_x, last_y)) => if x == last_x && y == last_y {
                    (next, Seq::empty())
                } else {
                    (
                        next,
                        seq![PointerSignal::Motion { dx: (x - last_x) as i32, dy: (y - last_y) as i32 }],
                    )
                },
            }
        },
        HostAction::Press(button) => (
            PointerState {
                last_position: state.last_position,
                left_pressed: if button == MouseButton::Left {
                    true
                } else {
                    state.left_pressed
                },
            },
            seq![PointerSignal::Button { button, pressed: true }],
        ),
        HostAction::Release(button) => (
            PointerState {
                last_position: state.last_position,
                left_pressed: if button == MouseButton::Left {
                    false
                } else {
                    state.left_pressed
                },
            },
            seq![PointerSignal::Button { button, pressed: false }],
        ),
    }
}

/// The relative mouse's state and signals for one host action; the state
/// is meant to be kept once the signals went out.
pub fn pointer_step(
    state: PointerState,
    screen_width: i32,
    screen_height: i32,
    action: HostAction,
) -> (step: (PointerState, Vec<PointerSignal>))
    requires
        pointer_step_defined(state, screen_width, screen_height, action),
    ensures
        (step.0, step.1@) == spec_pointer_step(state, screen_width, screen_height, action),
{
    let mut signals: Vec<PointerSignal> = Vec::new();
    match action {
        HostAction::Move { x, y } | HostAction::Drag { x, y } => {
            let mut last = state.last_position;
            match relative_delta(&mut last, x, y) {
                None => {
                    let (home_x, home_y) = home_delta(screen_width, screen_height);
                    signals.push(PointerSignal::Motion { dx: home_x, dy: home_y });
                    signals.push(PointerSignal::Motion { dx: x, dy: y });
                },
                Some((dx, dy)) => {
                    if dx != 0 || dy != 0 {
                        signals.push(PointerSignal::Motion { dx, dy });
                    }
                },
            }
            (PointerState { last_position: last, left_pressed: state.left_pressed }, signals)
        },
        HostAction::Press(button) => {
            signals.push(PointerSignal::Button { button, pressed: true });
            let left_pressed = match button {
                MouseButton::Left => true,
                _ => state.left_pressed,
            };
            (PointerState { last_position: state.last_position, left_pressed }, signals)
        },
        HostAction::Release(button) => {
            signals.push(PointerSignal::Button { button, pressed: false });
            let left_pressed = match button {
                MouseButton::Left => false,
                _ => state.left_pressed,
            };
            (PointerState { last_position: state.last_position, left_pressed }, signals)
        },
    }
}

/// What the relative mouse emits when it goes away: the left button's
/// release while it is held.
pub fn pointer_closing(state: PointerState) -> (signals: Vec<PointerSignal>)
    ensures
        signals@ == if state.left_pressed {
            seq![PointerSignal::Button { button: MouseButton::Left, pressed: false }]
        } else {
            Seq::empty()
        },
{
    let mut signals: Vec<PointerSignal> = Vec::new();
    if state.left_pressed {
        signals.push(PointerSignal::Button { button: MouseButton::Left, pressed: false });
    }
    signals
}

/// One signal of the virtual absolute tablet.
#[derive(Clone, Copy, Debug, PartialEq, Eq, Structural)]
pub enum TabletSignal {
    /// The pen tool is (or is no longer) in range.
    Tool(bool),
    /// The pen touches (or no longer touches) the surface.
    Touch(bool),
    X(i32),
    Y(i32),
    Pressure(i32),
}

/// The pressure the virtual tablet reports while touching.
pub const TABLET_TOUCH_PRESSURE: i32 = 1024;

/// The largest pressure the virtual tablet reports.
pub const TABLET_PRESSURE_MAX: i32 = 2048;

/// What the virtual tablet remembers: the last position it reported and
/// whether the pen touches.
#[derive(Clone, Copy, Debug, PartialEq, Eq)]
pub struct TabletState {
    pub last_position: Option<(i32, i32)>,
    pub touching: bool,
}

pub fn initial_tablet_state() -> (state: TabletState)
    ensures
        state == (TabletState { last_position: None, touching: false }),
{
    TabletState { last_position: None, touching: false }
}

/// The tablet's answer to a host action: a move to a new position reports
/// the pen in range there (the same position reports nothing); drags move
/// the same way; the left button touches down at the touch pressure and
/// lifts to no pressure; other buttons do nothing.
pub open spec fn spec_tablet_step(state: TabletState, action: HostAction) -> (TabletState, Seq<
    TabletSignal,
>) {
    match action {
        HostAction::Move { x, y } | HostAction::Drag { x, y } => if state.last_position == Some(
            (x, y),
        ) {
            (state, Seq::empty())
        } else {
            (
                TabletState { last_position: Some((x, y)), touching: state.touching },
                seq![TabletSignal::Tool(true), TabletSignal::X(x), TabletSignal::Y(y)],
            )
        },
        HostAction::Press(button) => if button == MouseButton::Left {
            (
                TabletState { last_position: state.last_position, touching: true },
                seq![
                    TabletSignal::Tool(true),
                    TabletSignal::Touch(true),
                    TabletSignal::Pressure(TABLET_TOUCH_PRESSURE),
                ],
            )
        } else {
            (state, Seq::empty())
        },
        HostAction::Release(button) => if button == MouseButton::Left {
            (
                TabletState { last_position: state.last_position, touching: false },
                seq![TabletSignal::Touch(false), TabletSignal::Pressure(0)],
            )
        } else {
            (state, Seq::empty())
        },
    }
}

/// The tablet's state and signals for one host action; the state is meant
/// to be kept once the signals went out.
pub fn tablet_step(state: TabletState, action: HostAction) -> (step: (TabletState, Vec<TabletSignal>))
    ensures
        (step.0, step.1@) == spec_tablet_step(state, action),
{
    let mut signals: Vec<TabletSignal> = Vec::new();
    match action {
        HostAction::Move { x, y } | HostAction::Drag { x, y } => {
            let same = match state.last_position {
                Some((last_x, last_y)) => last_x == x && last_y == y,
                None => false,
            };
            if same {
                (state, signals)
            } else {
                signals.push(TabletSignal::Tool(true));
                signals.push(TabletSignal::X(x));
                signals.push(TabletSignal::Y(y));
                (TabletState { last_position: Some((x, y)), touching: state.touching }, signals)
            }
        },
        HostAction::Press(button) => match button {
            MouseButton::Left => {
                signals.push(TabletSignal::Tool(true));
                signals.push(TabletSignal::Touch(true));
                signals.push(TabletSignal::Pressure(TABLET_TOUCH_PRESSURE));
                (TabletState { last_position: state.last_position, touching: true }, signals)
            },
            _ => (state, signals),
        },
        HostAction::Release(button) => match button {
            MouseButton::Left => {
                signals.push(TabletSignal::Touch(false));
                signals.push(TabletSignal::Pressure(0));
                (TabletState { last_position: state.last_position, touching: false }, signals)
            },
            _ => (state, signals),
        },
    }
}

/// What the tablet emits when it goes away, as two batches: the lift while
/// the pen touches, then the pen leaving range.
pub fn tablet_closing(state: TabletState) -> (batches: (Vec<TabletSignal>, Vec<TabletSignal>))
    ensures
        batches.0@ == if state.touching {
            seq![TabletSignal::Touch(false), TabletSignal::Pressure(0)]
        } else {
            Seq::empty()
        },
        batches.1@ == seq![TabletSignal::Tool(false)],
{
    let mut lift: Vec<TabletSignal> = Vec::new();
    if state.touching {
        lift.push(TabletSignal::Touch(false));
        lift.push(TabletSignal::Pressure(0));
    }
    let mut leave: Vec<TabletSignal> = Vec::new();
    leave.push(TabletSignal::Tool(false));
    (lift, leave)
}

/// The largest coordinate of a tablet axis spanning `size` pixels:
/// `size - 1`, saturating at `i32::MIN`.
pub fn tablet_axis_max(size: i32) -> (maximum: i32)
    ensures
        maximum == if size == i32::MIN {
            i32::MIN
        } else {
            (size - 1) as i32
        },
{
    if size == i32::MIN {
        i32::MIN
    } else {
        size - 1
    }
}

/// A press followed by a release of the same button leaves the relative
/// mouse's memory of the left button as it was before the press when that
/// button is not the left one, and released when it is.
pub proof fn lemma_press_release_restores(state: PointerState, w: i32, h: i32, button: MouseButton)
    ensures
        ({
            let pressed = spec_pointer_step(state, w, h, HostAction::Press(button)).0;
            let released = spec_pointer_step(pressed, w, h, HostAction::Release(button)).0;
            &&& released.last_position == state.last_position
            &&& released.left_pressed == (button != MouseButton::Left && state.left_pressed)
        }),
{
}

/// Repeating a move to the position the device is at emits nothing and
/// changes nothing, on the relative mouse and on the tablet alike.
pub proof fn lemma_repeated_move_is_silent(
    pointer: PointerState,
    tablet: TabletState,
    w: i32,
    h: i32,
    x: i32,
    y: i32,
)
    requires
        pointer_step_defined(pointer, w, h, HostAction::Move { x, y }),
    ensures
        ({
            let moved = spec_pointer_step(pointer, w, h, HostAction::Move { x, y }).0;
            spec_pointer_step(moved, w, h, HostAction::Move { x, y }) == (moved, Seq::<PointerSignal>::empty())
        }),
        ({
            let moved = spec_tablet_step(tablet, HostAction::Move { x, y }).0;
            spec_tablet_step(moved, HostAction::Move { x, y }) == (moved, Seq::<TabletSignal>::empty())
        }),
{
}

} // verus!
