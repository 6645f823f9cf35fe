use std::collections::VecDeque;

use remouseable::event::{EvdevEvent, EventSource, ABS_PRESSURE, ABS_X, ABS_Y, EV_ABS};
use remouseable::state::{ChangeSource, EvdevStateMachine, StateChange};

struct Events(VecDeque<EvdevEvent>);

impl EventSource for Events {
    fn next_event(&mut self) -> std::io::Result<Option<EvdevEvent>> {
        Ok(self.0.pop_front())
    }
}

fn event(event_type: u16, code: u16, value: i32) -> EvdevEvent {
    EvdevEvent {
        event_type,
        code,
        value,
        ..EvdevEvent::default()
    }
}

#[test]
fn skips_irrelevant_events_and_waits_for_both_coordinates() {
    let source = Events(
        [
            event(0x11, 0, 0),
            event(EV_ABS, ABS_X, 12),
            event(EV_ABS, ABS_Y, 34),
        ]
        .into(),
    );
    let mut machine = EvdevStateMachine::new(source, 1000);

    assert_eq!(
        machine.next_change().unwrap(),
        Some(StateChange::Move { x: 12, y: 34 })
    );
    assert_eq!(machine.next_change().unwrap(), None);
}

#[test]
fn emits_click_and_unclick_only_when_crossing_threshold() {
    let source = Events(
        [
            event(EV_ABS, ABS_PRESSURE, 1000),
            event(EV_ABS, ABS_PRESSURE, 2000),
            event(EV_ABS, ABS_PRESSURE, 3000),
            event(EV_ABS, ABS_PRESSURE, 1000),
            event(EV_ABS, ABS_PRESSURE, 500),
            event(EV_ABS, ABS_PRESSURE, 0),
        ]
        .into(),
    );
    let mut machine = EvdevStateMachine::new(source, 1000);

    assert_eq!(machine.next_change().unwrap(), Some(StateChange::Click));
    assert_eq!(machine.next_change().unwrap(), Some(StateChange::Unclick));
    assert_eq!(machine.next_change().unwrap(), None);
}

#[test]
fn converts_movement_to_drag_while_clicked() {
    let source = Events(
        [
            event(EV_ABS, ABS_PRESSURE, 2000),
            event(EV_ABS, ABS_X, 12),
            event(EV_ABS, ABS_Y, 34),
            event(EV_ABS, ABS_PRESSURE, 500),
        ]
        .into(),
    );
    let mut machine = EvdevStateMachine::with_dragging(source, 1000, true);

    assert_eq!(machine.next_change().unwrap(), Some(StateChange::Click));
    assert_eq!(
        machine.next_change().unwrap(),
        Some(StateChange::Drag { x: 12, y: 34 })
    );
    assert_eq!(machine.next_change().unwrap(), Some(StateChange::Unclick));
}

#[test]
fn movement_while_clicked_stays_a_move_without_dragging() {
    let source = Events(
        [
            event(EV_ABS, ABS_PRESSURE, 2000),
            event(EV_ABS, ABS_X, 12),
            event(EV_ABS, ABS_Y, 34),
            event(EV_ABS, ABS_X, 15),
            event(EV_ABS, ABS_Y, 34),
        ]
        .into(),
    );
    let mut machine = EvdevStateMachine::new(source, 1000);

    assert_eq!(machine.next_change().unwrap(), Some(StateChange::Click));
    assert_eq!(
        machine.next_change().unwrap(),
        Some(StateChange::Move { x: 12, y: 34 })
    );
    assert_eq!(
        machine.next_change().unwrap(),
        Some(StateChange::Move { x: 15, y: 34 })
    );
    assert_eq!(machine.next_change().unwrap(), None);
}

#[test]
fn clicks_and_unclicks_alternate_over_a_pressure_stream() {
    let pressures = [0, 1500, 1600, 900, 1200, 1001, 1000, 0, 5000];
    let source = Events(
        pressures
            .iter()
            .map(|pressure| event(EV_ABS, ABS_PRESSURE, *pressure))
            .collect(),
    );
    let mut machine = EvdevStateMachine::new(source, 1000);
    let mut changes = Vec::new();
    while let Some(change) = machine.next_change().unwrap() {
        changes.push(change);
    }

    assert_eq!(
        changes,
        [
            StateChange::Click,
            StateChange::Unclick,
            StateChange::Click,
            StateChange::Unclick,
            StateChange::Click,
        ]
    );
}
