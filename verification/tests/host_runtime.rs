use std::collections::VecDeque;

use remouseable::runtime::{HostDriver, MouseButton, Runtime, RuntimeError};
use remouseable::scale::PositionScaler;
use remouseable::state::{ChangeSource, StateChange};

#[derive(Debug, Eq, PartialEq)]
enum Action {
    Move(i32, i32),
    Drag(i32, i32),
    Press(MouseButton),
    Release(MouseButton),
}

#[derive(Debug)]
struct DriverError;

struct Changes(VecDeque<StateChange>);

impl ChangeSource for Changes {
    fn next_change(&mut self) -> std::io::Result<Option<StateChange>> {
        Ok(self.0.pop_front())
    }
}

struct FailingChanges;

impl ChangeSource for FailingChanges {
    fn next_change(&mut self) -> std::io::Result<Option<StateChange>> {
        Err(std::io::Error::other("source failure"))
    }
}

struct DoubleScaler;

impl PositionScaler for DoubleScaler {
    fn scale(&self, x: i32, y: i32) -> (i32, i32) {
        (x * 2, y * 2)
    }
}

#[derive(Default)]
struct Driver {
    actions: Vec<Action>,
}

impl HostDriver for Driver {
    type Error = DriverError;

    fn screen_size(&self) -> Result<(i32, i32), Self::Error> {
        Ok((1920, 1080))
    }

    fn move_mouse(&mut self, x: i32, y: i32) -> Result<(), Self::Error> {
        self.actions.push(Action::Move(x, y));
        Ok(())
    }

    fn drag_mouse(&mut self, x: i32, y: i32) -> Result<(), Self::Error> {
        self.actions.push(Action::Drag(x, y));
        Ok(())
    }

    fn press(&mut self, button: MouseButton) -> Result<(), Self::Error> {
        self.actions.push(Action::Press(button));
        Ok(())
    }

    fn release(&mut self, button: MouseButton) -> Result<(), Self::Error> {
        self.actions.push(Action::Release(button));
        Ok(())
    }
}

struct RefusingDriver;

impl HostDriver for RefusingDriver {
    type Error = DriverError;

    fn screen_size(&self) -> Result<(i32, i32), Self::Error> {
        Err(DriverError)
    }

    fn move_mouse(&mut self, _x: i32, _y: i32) -> Result<(), Self::Error> {
        Err(DriverError)
    }

    fn drag_mouse(&mut self, _x: i32, _y: i32) -> Result<(), Self::Error> {
        Err(DriverError)
    }

    fn press(&mut self, _button: MouseButton) -> Result<(), Self::Error> {
        Err(DriverError)
    }

    fn release(&mut self, _button: MouseButton) -> Result<(), Self::Error> {
        Err(DriverError)
    }
}

#[test]
fn dispatches_all_state_changes() {
    let changes = Changes(
        [
            StateChange::Move { x: 1, y: 2 },
            StateChange::Drag { x: 3, y: 4 },
            StateChange::Click,
            StateChange::Unclick,
        ]
        .into(),
    );
    let mut runtime = Runtime::new(changes, DoubleScaler, Driver::default());

    assert!(runtime.step().unwrap());
    assert!(runtime.step().unwrap());
    assert!(runtime.step().unwrap());
    assert!(runtime.step().unwrap());
    assert!(!runtime.step().unwrap());

    let (_, _, driver) = runtime.into_parts();
    assert_eq!(
        driver.actions,
        [
            Action::Move(2, 4),
            Action::Drag(6, 8),
            Action::Press(MouseButton::Left),
            Action::Release(MouseButton::Left),
        ]
    );
}

#[test]
fn propagates_source_errors() {
    let mut runtime = Runtime::new(FailingChanges, DoubleScaler, Driver::default());

    assert!(matches!(runtime.step(), Err(RuntimeError::Source(_))));
}

#[test]
fn propagates_driver_errors() {
    let changes = Changes([StateChange::Click].into());
    let mut runtime = Runtime::new(changes, DoubleScaler, RefusingDriver);

    assert!(matches!(runtime.step(), Err(RuntimeError::Driver(DriverError))));
}
