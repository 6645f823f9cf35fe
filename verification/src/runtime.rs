use vstd::prelude::*;

use crate::scale::PositionScaler;
use crate::state::{ChangeSource, StateChange};

verus! {

#[derive(Clone, Copy, Debug, PartialEq, Eq, Structural)]
pub enum MouseButton {
    Left,
    Right,
    Middle,
}

/// One action performed on the host pointer.
#[derive(Clone, Copy, Debug, PartialEq, Eq, Structural)]
pub enum HostAction {
    Move { x: i32, y: i32 },
    Drag { x: i32, y: i32 },
    Press(MouseButton),
    Release(MouseButton),
}

/// A host pointer; `actions` is the history of actions it accepted and
/// `attempts` the history of every action it was asked for, accepted or not.
/// An action that fails leaves the accepted history as it was.
///
/// Only a driver that declares it keeps these histories (`obeys_history`)
/// promises them; for any other driver the contracts below say nothing.
pub trait HostDriver {
    type Error;

    open spec fn obeys_history() -> bool {
        false
    }

    open spec fn actions(&self) -> Seq<HostAction> {
        Seq::empty()
    }

    open spec fn attempts(&self) -> Seq<HostAction> {
        Seq::empty()
    }

    /// Returns target screen dimensions.
    fn screen_size(&self) -> Result<(i32, i32), Self::Error>;

    /// Moves the pointer without an explicit drag event.
    fn move_mouse(&mut self, x: i32, y: i32) -> (moved: Result<(), Self::Error>)
        ensures
            Self::obeys_history() ==> {
                &&& final(self).attempts() == old(self).attempts().push(HostAction::Move { x, y })
                &&& moved is Ok ==> final(self).actions() == old(self).actions().push(HostAction::Move { x, y })
                &&& moved is Err ==> final(self).actions() == old(self).actions()
            },
    ;

    /// Moves the pointer using host-specific drag semantics.
    fn drag_mouse(&mut self, x: i32, y: i32) -> (dragged: Result<(), Self::Error>)
        ensures
            Self::obeys_history() ==> {
                &&& final(self).attempts() == old(self).attempts().push(HostAction::Drag { x, y })
                &&& dragged is Ok ==> final(self).actions() == old(self).actions().push(HostAction::Drag { x, y })
                &&& dragged is Err ==> final(self).actions() == old(self).actions()
            },
    ;

    /// Presses and holds a mouse button.
    fn press(&mut self, button: MouseButton) -> (pressed: Result<(), Self::Error>)
        ensures
            Self::obeys_history() ==> {
                &&& final(self).attempts() == old(self).attempts().push(HostAction::Press(button))
                &&& pressed is Ok ==> final(self).actions() == old(self).actions().push(HostAction::Press(button))
                &&& pressed is Err ==> final(self).actions() == old(self).actions()
            },
    ;

    /// Releases a mouse button.
    fn release(&mut self, button: MouseButton) -> (released: Result<(), Self::Error>)
        ensures
            Self::obeys_history() ==> {
                &&& final(self).attempts() == old(self).attempts().push(HostAction::Release(button))
                &&& released is Ok ==> final(self).actions() == old(self).actions().push(HostAction::Release(button))
                &&& released is Err ==> final(self).actions() == old(self).actions()
            },
    ;
}

#[derive(Debug)]
pub enum RuntimeError<E> {
    Source(std::io::Error),
    Driver(E),
}

impl<E> RuntimeError<E> {
    /// What failed, as the error's message starts: the message goes on with
    /// `": "` and the failing part's own message.
    pub fn context(&self) -> (context: &'static str)
        ensures
            context@ == match self {
                RuntimeError::Source(_) => "event source failed"@,
                RuntimeError::Driver(_) => "host driver failed"@,
            },
    {
        match self {
            RuntimeError::Source(_) => "event source failed",
            RuntimeError::Driver(_) => "host driver failed",
        }
    }
}

/// The host action for a state change: moves and drags go to the scaled
/// position, a click presses and an unclick releases the left button.
pub open spec fn host_action<P: PositionScaler>(change: StateChange, scaler: P) -> HostAction {
    match change {
        StateChange::Move { x, y } => HostAction::Move {
            x: scaler.scaled(x, y).0,
            y: scaler.scaled(x, y).1,
        },
        StateChange::Drag { x, y } => HostAction::Drag {
            x: scaler.scaled(x, y).0,
            y: scaler.scaled(x, y).1,
        },
        StateChange::Click => HostAction::Press(MouseButton::Left),
        StateChange::Unclick => HostAction::Release(MouseButton::Left),
    }
}

/// The host actions for a sequence of state changes, in order.
pub open spec fn host_actions<P: PositionScaler>(changes: Seq<StateChange>, scaler: P) -> Seq<HostAction> {
    changes.map_values(|c: StateChange| host_action(c, scaler))
}

/// Performs the host action for one state change on the driver.
pub fn dispatch<P: PositionScaler, D: HostDriver>(scaler: &P, driver: &mut D, change: StateChange) -> (dispatched: Result<(), D::Error>)
    ensures
        D::obeys_history() ==> (dispatched is Err ==> final(driver).actions() == old(
            driver,
        ).actions()),
        D::obeys_history() && P::obeys_scaling() ==> {
            &&& final(driver).attempts() == old(driver).attempts().push(host_action(change, *scaler))
            &&& dispatched is Ok ==> final(driver).actions() == old(driver).actions().push(
                host_action(change, *scaler),
            )
        },
{
    match change {
        StateChange::Move { x, y } => {
            let (x, y) = scaler.scale(x, y);
            driver.move_mouse(x, y)
        },
        StateChange::Drag { x, y } => {
            let (x, y) = scaler.scale(x, y);
            driver.drag_mouse(x, y)
        },
        StateChange::Click => driver.press(MouseButton::Left),
        StateChange::Unclick => driver.release(MouseButton::Left),
    }
}

/// Dispatches state changes to a host driver.
pub struct Runtime<C, P, D> {
    changes: C,
    scaler: P,
    driver: D,
}

impl<C, P, D> Runtime<C, P, D> {
    pub closed spec fn changes(&self) -> C {
        self.changes
    }

    pub closed spec fn scaler(&self) -> P {
        self.scaler
    }

    pub closed spec fn driver(&self) -> D {
        self.driver
    }

    pub fn new(changes: C, scaler: P, driver: D) -> (runtime: Self)
        ensures
            runtime.changes() == changes,
            runtime.scaler() == scaler,
            runtime.driver() == driver,
    {
        Runtime { changes, scaler, driver }
    }

    pub fn into_parts(self) -> (parts: (C, P, D))
        ensures
            parts == (self.changes(), self.scaler(), self.driver()),
    {
        (self.changes, self.scaler, self.driver)
    }
}

impl<C: ChangeSource, P: PositionScaler, D: HostDriver> Runtime<C, P, D> {
    /// Processes one state change: `Ok(false)` when the change source is
    /// exhausted, `Ok(true)` when the change was dispatched.
    pub fn step(&mut self) -> (stepped: Result<bool, RuntimeError<D::Error>>)
        requires
            old(self).changes().valid(),
        ensures
            final(self).changes().valid(),
            final(self).scaler() == old(self).scaler(),
            match stepped {
                Ok(true) => {
                    let change = final(self).changes().produced().last();
                    &&& final(self).changes().produced() == old(self).changes().produced().push(
                        change,
                    )
                    &&& D::obeys_history() && P::obeys_scaling() ==> {
                        &&& final(self).driver().actions() == old(self).driver().actions().push(
                            host_action(change, old(self).scaler()),
                        )
                        &&& final(self).driver().attempts() == old(self).driver().attempts().push(
                            host_action(change, old(self).scaler()),
                        )
                    }
                },
                Ok(false) => {
                    &&& final(self).changes().produced() == old(self).changes().produced()
                    &&& final(self).driver() == old(self).driver()
                },
                Err(RuntimeError::Source(_)) => {
                    &&& final(self).changes().produced() == old(self).changes().produced()
                    &&& final(self).driver() == old(self).driver()
                },
                Err(RuntimeError::Driver(_)) => {
                    let change = final(self).changes().produced().last();
                    &&& final(self).changes().produced() == old(self).changes().produced().push(
                        change,
                    )
                    &&& D::obeys_history() ==> final(self).driver().actions() == old(
                        self,
                    ).driver().actions()
                    &&& D::obeys_history() && P::obeys_scaling() ==> final(self).driver().attempts()
                        == old(self).driver().attempts().push(host_action(change, old(self).scaler()))
                },
            },

            old(self).changes().ended() ==> stepped matches Ok(false),
            final(self).changes().ended() == (old(self).changes().ended() || stepped matches Ok(
                false,
            )),
            final(self).changes().failure() == match stepped {
                Err(RuntimeError::Source(error)) => Some(error),
                _ => None,
            },
            final(self).changes().intact() == (old(self).changes().intact() && !(
            stepped matches Err(RuntimeError::Source(_)))),
    {
        let change = match self.changes.next_change() {
            Ok(Some(change)) => change,
            Ok(None) => {
                return Ok(false);
            },
            Err(error) => {
                return Err(RuntimeError::Source(error));
            },
        };
        let dispatched = dispatch(&self.scaler, &mut self.driver, change);
        match dispatched {
            Ok(()) => Ok(true),
            Err(error) => Err(RuntimeError::Driver(error)),
        }
    }
}

} // verus!
