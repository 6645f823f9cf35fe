use vstd::prelude::*;

pub mod app;
pub mod driver;
pub mod event;
pub mod hyprland;
pub mod options;
pub mod pen;
pub mod runtime;
pub mod scale;
pub mod ssh;
pub mod state;
pub mod text;
pub mod uinput;
pub mod windows_pen;

pub use driver::{DriverKind, MonitorInfo};
pub use event::{
    event_code_name, event_type_name, ByteReader, EvdevEvent, EventSource, FilteringEventSource,
    ReaderEventSource, SelectingEventSource,
};
pub use pen::{
    EvdevPenFrameSource, PenCalibration, PenDriver, PenInput, PenOrientation, PenPhase, PenRuntime,
    PenRuntimeError, PenSource, DEFAULT_TABLET_PRESSURE_MAX, DEFAULT_TABLET_TILT_MAX,
};
pub use runtime::{HostAction, HostDriver, MouseButton, Runtime, RuntimeError};
pub use scale::{
    AxisScale, LeftPositionScaler, PositionScaler, RightPositionScaler, VerticalPositionScaler,
    DEFAULT_TABLET_HEIGHT, DEFAULT_TABLET_WIDTH,
};
pub use state::{ChangeSource, EvdevStateMachine, StateChange};

verus! {

#[verifier::external_type_specification]
#[verifier::external_body]
pub struct ExIoError(std::io::Error);

#[verifier::external_type_specification]
#[verifier::external_body]
#[verifier::reject_recursive_types(T)]
pub struct ExCursor<T>(std::io::Cursor<T>);

/// `std::io::Error::new` with kind `InvalidInput` and the given message.
#[verifier::external_body]
pub(crate) fn invalid_input(message: &str) -> std::io::Error {
    std::io::Error::new(std::io::ErrorKind::InvalidInput, message)
}

} // verus!
