use vstd::prelude::*;

use crate::event::{keep_types, EvdevEvent, EventSource, ABS_PRESSURE, ABS_X, ABS_Y, EV_ABS};

verus! {

/// A significant change of the stylus, as the host should see it.
#[derive(Clone, Copy, Debug, PartialEq, Eq, Structural)]
pub enum StateChange {
    Move { x: i32, y: i32 },
    Drag { x: i32, y: i32 },
    Click,
    Unclick,
}

/// A pull-based stream of state changes.
///
/// `produced` is the history of changes handed out so far; an error or the
/// end of the stream leaves it as it was.
pub trait ChangeSource {
    /// Well-formedness of the source's internal state; a source that does
    /// not state it promises nothing.
    open spec fn valid(&self) -> bool {
        false
    }

    open spec fn produced(&self) -> Seq<StateChange> {
        Seq::empty()
    }

    /// Whether the stream has ended; once it has, every pull reports the end.
    open spec fn ended(&self) -> bool {
        false
    }

    /// The error of the last pull, if it failed.
    open spec fn failure(&self) -> Option<std::io::Error> {
        None
    }

    /// Whether no pull has failed yet.
    open spec fn intact(&self) -> bool {
        true
    }

    /// Returns the next significant state change, or `None` when finished.
    fn next_change(&mut self) -> (next: std::io::Result<Option<StateChange>>)
        requires
            old(self).valid(),
        ensures
            final(self).valid(),
            match next {
                Ok(Some(change)) => final(self).produced() == old(self).produced().push(change),
                _ => final(self).produced() == old(self).produced(),
            },
            old(self).ended() ==> next matches Ok(None),
            final(self).ended() == (old(self).ended() || next matches Ok(None)),
            final(self).failure() == match next {
                Err(error) => Some(error),
                _ => None,
            },
            final(self).intact() == (old(self).intact() && !(next is Err)),
    ;
}

/// What the state machine remembers of the stylus between events.
#[derive(Clone, Copy, Debug, PartialEq, Eq, Structural)]
pub struct StylusState {
    pub x: i32,
    pub y: i32,
    pub x_changed: bool,
    pub y_changed: bool,
    pub clicked: bool,
}

pub open spec fn initial_stylus() -> StylusState {
    StylusState { x: 0, y: 0, x_changed: false, y_changed: false, clicked: false }
}

/// Once both coordinates have changed, they are reported together: as a
/// drag while the stylus is down and dragging is enabled, else as a move.
pub open spec fn report_position(stylus: StylusState, dragging: bool) -> (StylusState, Option<
    StateChange,
>) {
    if stylus.x_changed && stylus.y_changed {
        (
            StylusState { x_changed: false, y_changed: false, ..stylus },
            Some(
                if dragging && stylus.clicked {
                    StateChange::Drag { x: stylus.x, y: stylus.y }
                } else {
                    StateChange::Move { x: stylus.x, y: stylus.y }
                },
            ),
        )
    } else {
        (stylus, None)
    }
}

/// One step of the stylus state machine: only absolute events matter;
/// pressure crossing the threshold upwards clicks, crossing it downwards
/// releases, and coordinates are reported in pairs.
pub open spec fn process_event(
    pressure_threshold: i32,
    dragging: bool,
    stylus: StylusState,
    event: EvdevEvent,
) -> (StylusState, Option<StateChange>) {
    if event.event_type != EV_ABS {
        (stylus, None)
    } else if event.code == ABS_X {
        report_position(StylusState { x: event.value, x_changed: true, ..stylus }, dragging)
    } else if event.code == ABS_Y {
        report_position(StylusState { y: event.value, y_changed: true, ..stylus }, dragging)
    } else if event.code == ABS_PRESSURE && event.value > pressure_threshold && !stylus.clicked {
        (StylusState { clicked: true, ..stylus }, Some(StateChange::Click))
    } else if event.code == ABS_PRESSURE && event.value < pressure_threshold && stylus.clicked {
        (StylusState { clicked: false, ..stylus }, Some(StateChange::Unclick))
    } else {
        report_position(stylus, dragging)
    }
}

/// The stylus state after, and the changes reported for, a run of events
/// that starts from the initial state.
pub open spec fn run_events(pressure_threshold: i32, dragging: bool, events: Seq<EvdevEvent>) -> (
    StylusState,
    Seq<StateChange>,
)
    decreases events.len(),
{
    if events.len() == 0 {
        (initial_stylus(), Seq::empty())
    } else {
        let before = run_events(pressure_threshold, dragging, events.drop_last());
        let step = process_event(pressure_threshold, dragging, before.0, events.last());
        (
            step.0,
            match step.1 {
                Some(change) => before.1.push(change),
                None => before.1,
            },
        )
    }
}

proof fn lemma_run_events_push(
    pressure_threshold: i32,
    dragging: bool,
    events: Seq<EvdevEvent>,
    event: EvdevEvent,
)
    ensures
        ({
            let before = run_events(pressure_threshold, dragging, events);
            let step = process_event(pressure_threshold, dragging, before.0, event);
            run_events(pressure_threshold, dragging, events.push(event)) == (
                step.0,
                match step.1 {
                    Some(change) => before.1.push(change),
                    None => before.1,
                },
            )
        }),
{
    assert(events.push(event).drop_last() =~= events);
}

/// Whether the button is held after a sequence of changes.
pub open spec fn pressed_after(changes: Seq<StateChange>) -> bool
    decreases changes.len(),
{
    if changes.len() == 0 {
        false
    } else {
        match changes.last() {
            StateChange::Click => true,
            StateChange::Unclick => false,
            _ => pressed_after(changes.drop_last()),
        }
    }
}

/// Change `i` fits what came before it: a click only while released, an
/// unclick or a drag only while pressed.
pub open spec fn fits_history(changes: Seq<StateChange>, i: int) -> bool {
    match changes[i] {
        StateChange::Click => !pressed_after(changes.take(i)),
        StateChange::Unclick => pressed_after(changes.take(i)),
        StateChange::Drag { .. } => pressed_after(changes.take(i)),
        StateChange::Move { .. } => true,
    }
}

pub open spec fn well_ordered_changes(changes: Seq<StateChange>, dragging: bool) -> bool {
    &&& forall|i: int| 0 <= i < changes.len() ==> #[trigger] fits_history(changes, i)
    &&& !dragging ==> forall|i: int| 0 <= i < changes.len() ==> !(#[trigger] changes[i] is Drag)
}

proof fn lemma_well_ordered_push(changes: Seq<StateChange>, change: StateChange, dragging: bool)
    requires
        well_ordered_changes(changes, dragging),
        fits_history(changes.push(change), changes.len() as int),
        !dragging ==> !(change is Drag),
    ensures
        well_ordered_changes(changes.push(change), dragging),
        pressed_after(changes.push(change)) == match change {
            StateChange::Click => true,
            StateChange::Unclick => false,
            _ => pressed_after(changes),
        },
{
    let pushed = changes.push(change);
    assert(pushed.drop_last() =~= changes);
    assert forall|i: int| 0 <= i < pushed.len() implies #[trigger] fits_history(pushed, i) by {
        if i < changes.len() {
            assert(pushed.take(i) =~= changes.take(i));
            assert(fits_history(changes, i));
        }
    }
    if !dragging {
        assert forall|i: int| 0 <= i < pushed.len() implies !(#[trigger] pushed[i] is Drag) by {
            if i < changes.len() {
                assert(pushed[i] == changes[i]);
            }
        }
    }
}

/// Clicks and unclicks alternate, starting with a click; drags happen only
/// while the button is held and only when dragging is enabled; and the
/// machine's button state is the one its changes leave behind.
pub proof fn lemma_clicks_alternate(pressure_threshold: i32, dragging: bool, events: Seq<EvdevEvent>)
    ensures
        well_ordered_changes(run_events(pressure_threshold, dragging, events).1, dragging),
        run_events(pressure_threshold, dragging, events).0.clicked == pressed_after(
            run_events(pressure_threshold, dragging, events).1,
        ),
    decreases events.len(),
{
    if events.len() > 0 {
        lemma_clicks_alternate(pressure_threshold, dragging, events.drop_last());
        let before = run_events(pressure_threshold, dragging, events.drop_last());
        let step = process_event(pressure_threshold, dragging, before.0, events.last());
        if let Some(change) = step.1 {
            assert(before.1.push(change).take(before.1.len() as int) =~= before.1);
            lemma_well_ordered_push(before.1, change, dragging);
        }
    }
}

/// Only pressure moves the button: whatever the stylus state, an event
/// that is not an absolute pressure event never clicks or unclicks and never
/// changes whether the button is held.
pub proof fn lemma_only_pressure_moves_the_button(
    pressure_threshold: i32,
    dragging: bool,
    stylus: StylusState,
    event: EvdevEvent,
)
    requires
        !(event.event_type == EV_ABS && event.code == ABS_PRESSURE),
    ensures
        ({
            let (next, change) = process_event(pressure_threshold, dragging, stylus, event);
            &&& next.clicked == stylus.clicked
            &&& change != Some(StateChange::Click)
            &&& change != Some(StateChange::Unclick)
        }),
{
}

/// Absolute axes other than X, Y and pressure (tilt, distance, ...) are
/// ignored: after any run of events, one more such event leaves the stylus
/// state and the reported changes exactly as they were.
pub proof fn lemma_other_axes_are_ignored(
    pressure_threshold: i32,
    dragging: bool,
    events: Seq<EvdevEvent>,
    event: EvdevEvent,
)
    requires
        event.event_type == EV_ABS,
        event.code != ABS_X,
        event.code != ABS_Y,
        event.code != ABS_PRESSURE,
    ensures
        run_events(pressure_threshold, dragging, events.push(event)) == run_events(
            pressure_threshold,
            dragging,
            events,
        ),
{
    lemma_run_events_push(pressure_threshold, dragging, events, event);
    lemma_no_pending_pair(pressure_threshold, dragging, events);
}

/// No coordinate waits for its partner across events: once an event has
/// been processed, the two coordinates are never both pending.
pub proof fn lemma_no_pending_pair(pressure_threshold: i32, dragging: bool, events: Seq<EvdevEvent>)
    ensures
        !(run_events(pressure_threshold, dragging, events).0.x_changed && run_events(
            pressure_threshold,
            dragging,
            events,
        ).0.y_changed),
    decreases events.len(),
{
    if events.len() > 0 {
        lemma_no_pending_pair(pressure_threshold, dragging, events.drop_last());
    }
}

/// The pressure rule: a pressure event clicks exactly when it rises above
/// the threshold while released, releases exactly when it falls below the
/// threshold while held, and otherwise reports nothing and keeps the button
/// state; a pressure equal to the threshold never changes it.
pub proof fn lemma_pressure_rule(
    pressure_threshold: i32,
    dragging: bool,
    stylus: StylusState,
    event: EvdevEvent,
)
    requires
        event.event_type == EV_ABS,
        event.code == ABS_PRESSURE,
        !(stylus.x_changed && stylus.y_changed),
    ensures
        ({
            let (next, change) = process_event(pressure_threshold, dragging, stylus, event);
            &&& (change == Some(StateChange::Click)) == (event.value > pressure_threshold
                && !stylus.clicked)
            &&& (change == Some(StateChange::Unclick)) == (event.value < pressure_threshold
                && stylus.clicked)
            &&& change is Some ==> change == Some(StateChange::Click) || change == Some(
                StateChange::Unclick,
            )
            &&& next.clicked == (change == Some(StateChange::Click) || (stylus.clicked && change
                != Some(StateChange::Unclick)))
            &&& event.value == pressure_threshold ==> next == stylus && change is None
        }),
{
}

/// The coordinate rule: a coordinate event records its value, and once both
/// coordinates have arrived since the last report they are reported
/// together, as a drag while held with dragging on, else as a move; the
/// button state does not change.
pub proof fn lemma_coordinate_rule(
    pressure_threshold: i32,
    dragging: bool,
    stylus: StylusState,
    event: EvdevEvent,
)
    requires
        event.event_type == EV_ABS,
        event.code == ABS_X || event.code == ABS_Y,
    ensures
        ({
            let (next, change) = process_event(pressure_threshold, dragging, stylus, event);
            let x = if event.code == ABS_X {
                event.value
            } else {
                stylus.x
            };
            let y = if event.code == ABS_Y {
                event.value
            } else {
                stylus.y
            };
            let both = (event.code == ABS_X || stylus.x_changed) && (event.code == ABS_Y
                || stylus.y_changed);
            &&& next.clicked == stylus.clicked
            &&& next.x == x && next.y == y
            &&& change == if !both {
                None
            } else if dragging && stylus.clicked {
                Some(StateChange::Drag { x, y })
            } else {
                Some(StateChange::Move { x, y })
            }
        }),
{
}

/// The changes of a run without dragging, with every move made while the
/// button is held turned into a drag.
pub open spec fn drag_while_held(changes: Seq<StateChange>) -> Seq<StateChange>
    decreases changes.len(),
{
    if changes.len() == 0 {
        Seq::empty()
    } else {
        let rest = drag_while_held(changes.drop_last());
        let last = changes.last();
        rest.push(
            match last {
                StateChange::Move { x, y } => if pressed_after(changes.drop_last()) {
                    StateChange::Drag { x, y }
                } else {
                    last
                },
                _ => last,
            },
        )
    }
}

/// Dragging changes only how moves are reported: a run with dragging on
/// ends in the same stylus state as the run without, and reports the same
/// changes except that moves made while the button is held are drags.
pub proof fn lemma_dragging_turns_held_moves_into_drags(
    pressure_threshold: i32,
    events: Seq<EvdevEvent>,
)
    ensures
        run_events(pressure_threshold, true, events).0 == run_events(
            pressure_threshold,
            false,
            events,
        ).0,
        run_events(pressure_threshold, true, events).1 == drag_while_held(
            run_events(pressure_threshold, false, events).1,
        ),
    decreases events.len(),
{
    if events.len() > 0 {
        let rest = events.drop_last();
        lemma_dragging_turns_held_moves_into_drags(pressure_threshold, rest);
        lemma_clicks_alternate(pressure_threshold, false, rest);
        let plain = run_events(pressure_threshold, false, rest).1;
        let step = process_event(
            pressure_threshold,
            false,
            run_events(pressure_threshold, false, rest).0,
            events.last(),
        );
        if let Some(change) = step.1 {
            assert(plain.push(change).drop_last() =~= plain);
        }
    }
}

/// Events other than absolute ones change nothing: running the machine on
/// only the absolute events of a stream gives the same state and changes as
/// running it on the whole stream.
pub proof fn lemma_only_absolute_events_matter(
    pressure_threshold: i32,
    dragging: bool,
    events: Seq<EvdevEvent>,
)
    ensures
        run_events(pressure_threshold, dragging, keep_types(events, seq![EV_ABS], true))
            == run_events(pressure_threshold, dragging, events),
    decreases events.len(),
{
    if events.len() > 0 {
        lemma_only_absolute_events_matter(pressure_threshold, dragging, events.drop_last());
        let last = events.last();
        let kept = keep_types(events.drop_last(), seq![EV_ABS], true);
        assert(seq![EV_ABS].contains(last.event_type) <==> last.event_type == EV_ABS) by {
            if last.event_type == EV_ABS {
                assert(seq![EV_ABS][0] == last.event_type);
            }
        }
        if last.event_type == EV_ABS {
            assert(kept.push(last).drop_last() =~= kept);
        }
    }
}

/// Turns Evdev events into clicks, releases, moves and drags.
pub struct EvdevStateMachine<S> {
    source: S,
    pressure_threshold: i32,
    dragging: bool,
    x: i32,
    y: i32,
    x_changed: bool,
    y_changed: bool,
    clicked: bool,
    seen: Ghost<Seq<EvdevEvent>>,
}

impl<S> EvdevStateMachine<S> {
    pub closed spec fn source(&self) -> S {
        self.source
    }

    pub closed spec fn pressure_threshold(&self) -> i32 {
        self.pressure_threshold
    }

    pub closed spec fn dragging(&self) -> bool {
        self.dragging
    }

    /// The events processed so far.
    pub closed spec fn seen(&self) -> Seq<EvdevEvent> {
        self.seen@
    }

    pub closed spec fn stylus(&self) -> StylusState {
        StylusState {
            x: self.x,
            y: self.y,
            x_changed: self.x_changed,
            y_changed: self.y_changed,
            clicked: self.clicked,
        }
    }

    pub fn new(source: S, pressure_threshold: i32) -> (machine: Self)
        ensures
            machine.source() == source,
            machine.pressure_threshold() == pressure_threshold,
            !machine.dragging(),
            machine.seen() == Seq::<EvdevEvent>::empty(),
            machine.stylus() == initial_stylus(),
    {
        Self::with_dragging(source, pressure_threshold, false)
    }

    pub fn with_dragging(source: S, pressure_threshold: i32, dragging: bool) -> (machine: Self)
        ensures
            machine.source() == source,
            machine.pressure_threshold() == pressure_threshold,
            machine.dragging() == dragging,
            machine.seen() == Seq::<EvdevEvent>::empty(),
            machine.stylus() == initial_stylus(),
    {
        EvdevStateMachine {
            source,
            pressure_threshold,
            dragging,
            x: 0,
            y: 0,
            x_changed: false,
            y_changed: false,
            clicked: false,
            seen: Ghost(Seq::empty()),
        }
    }

    pub fn into_inner(self) -> (source: S)
        ensures
            source == self.source(),
    {
        self.source
    }

    fn report_position(&mut self) -> (change: Option<StateChange>)
        ensures
            (final(self).stylus(), change) == report_position(old(self).stylus(), old(self).dragging),
            final(self).source == old(self).source,
            final(self).pressure_threshold == old(self).pressure_threshold,
            final(self).dragging == old(self).dragging,
            final(self).seen == old(self).seen,
    {
        if self.x_changed && self.y_changed {
            self.x_changed = false;
            self.y_changed = false;
            if self.dragging && self.clicked {
                return Some(StateChange::Drag { x: self.x, y: self.y });
            }
            return Some(StateChange::Move { x: self.x, y: self.y });
        }
        None
    }

    /// Applies one event to the stylus state and returns the change it
    /// reports, as `process_event` says.
    pub fn process(&mut self, event: EvdevEvent) -> (change: Option<StateChange>)
        ensures
            (final(self).stylus(), change) == process_event(
                old(self).pressure_threshold(),
                old(self).dragging(),
                old(self).stylus(),
                event,
            ),
            final(self).source() == old(self).source(),
            final(self).pressure_threshold() == old(self).pressure_threshold(),
            final(self).dragging() == old(self).dragging(),
            final(self).seen() == old(self).seen(),
    {
        if event.event_type != EV_ABS {
            return None;
        }
        if event.code == ABS_X {
            self.x = event.value;
            self.x_changed = true;
        } else if event.code == ABS_Y {
            self.y = event.value;
            self.y_changed = true;
        } else if event.code == ABS_PRESSURE && event.value > self.pressure_threshold
            && !self.clicked {
            self.clicked = true;
            return Some(StateChange::Click);
        } else if event.code == ABS_PRESSURE && event.value < self.pressure_threshold
            && self.clicked {
            self.clicked = false;
            return Some(StateChange::Unclick);
        }
        self.report_position()
    }
}

impl<S: EventSource> ChangeSource for EvdevStateMachine<S> {
    open spec fn valid(&self) -> bool {
        &&& self.source().valid()
        &&& self.source().produced().len() <= u64::MAX
        &&& self.stylus() == run_events(self.pressure_threshold(), self.dragging(), self.seen()).0
    }

    open spec fn produced(&self) -> Seq<StateChange> {
        run_events(self.pressure_threshold(), self.dragging(), self.seen()).1
    }

    /// The machine ends when its event source ends.
    open spec fn ended(&self) -> bool {
        self.source().ended()
    }

    /// A pull fails exactly when, and with the error with which, the event
    /// source's pull fails.
    open spec fn failure(&self) -> Option<std::io::Error> {
        self.source().failure()
    }

    open spec fn intact(&self) -> bool {
        self.source().intact()
    }

    fn next_change(&mut self) -> (next: std::io::Result<Option<StateChange>>)
        ensures
            final(self).pressure_threshold() == old(self).pressure_threshold(),
            final(self).dragging() == old(self).dragging(),
            final(self).seen().take(old(self).seen().len() as int) == old(self).seen(),
            final(self).source().produced() == old(self).source().produced() + final(self).seen().skip(
                old(self).seen().len() as int,
            ),
            final(self).seen().len() >= old(self).seen().len(),
            final(self).source().origin() == old(self).source().origin(),
            next matches Ok(Some(_)) ==> final(self).seen().len() > old(self).seen().len() && run_events(
                final(self).pressure_threshold(),
                final(self).dragging(),
                final(self).seen().drop_last(),
            ).1 == old(self).produced(),
    {
        loop
            invariant
                self.valid(),
                self.pressure_threshold() == old(self).pressure_threshold(),
                self.dragging() == old(self).dragging(),
                self.produced() == old(self).produced(),
                self.seen().len() >= old(self).seen().len(),
                self.seen().take(old(self).seen().len() as int) == old(self).seen(),
                self.source().produced() == old(self).source().produced() + self.seen().skip(
                    old(self).seen().len() as int,
                ),
                self.source().ended() == old(self).source().ended(),
                self.source().intact() == old(self).source().intact(),
                self.source().origin() == old(self).source().origin(),
            decreases u64::MAX - self.source().produced().len(),
        {
            let ghost seen_before = self.seen();
            let ghost produced_before = self.source().produced();
            match self.source.next_event() {
                Ok(Some(event)) => {
                    let change = self.process(event);
                    self.seen = Ghost(self.seen@.push(event));
                    proof {
                        lemma_run_events_push(
                            self.pressure_threshold,
                            self.dragging,
                            seen_before,
                            event,
                        );
                        let k = old(self).seen().len() as int;
                        assert(self.seen().take(k) =~= seen_before.take(k));
                        assert(self.seen().skip(k) =~= seen_before.skip(k).push(event));
                        assert(self.source().produced() =~= old(self).source().produced()
                            + self.seen().skip(k));
                    }
                    if let Some(change) = change {
                        assert(self.seen().drop_last() =~= seen_before);
                        return Ok(Some(change));
                    }
                },
                Ok(None) => {
                    return Ok(None);
                },
                Err(error) => {
                    return Err(error);
                },
            }
        }
    }
}

} // verus!
