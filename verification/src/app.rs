use vstd::prelude::*;
use vstd::string::StringExecFns;

use crate::event::{
    decode_records, delivered_records, event_code_name, event_type_name, keep_types,
    lemma_ended_reader_read_everything, lemma_reader_decodes_bytes_read,
    lemma_reader_reads_a_prefix, record_prefix,
    spec_event_code_name, spec_event_type_name, ByteReader, EvdevEvent, EventSource,
    ReaderEventSource, SelectingEventSource, EV_ABS,
};
use crate::runtime::{dispatch, host_action, host_actions, HostDriver};
use crate::scale::PositionScaler;
use crate::state::{
    lemma_only_absolute_events_matter, run_events, ChangeSource, EvdevStateMachine, StateChange,
};
use crate::runtime::{HostAction, MouseButton, RuntimeError};
use crate::scale::{AxisScale, LeftPositionScaler, RightPositionScaler, VerticalPositionScaler};
use crate::text::{append_decimal, decimal};

verus! {

#[derive(Clone, Copy, Debug, PartialEq, Eq, Structural)]
pub enum Orientation {
    Right,
    Left,
    Vertical,
}

#[derive(Clone, Copy, Debug, PartialEq, Eq, Structural)]
pub struct Config {
    pub orientation: Orientation,
    pub tablet_width: i32,
    pub tablet_height: i32,
    pub screen_width: i32,
    pub screen_height: i32,
    pub pressure_threshold: i32,
    pub disable_drag_event: bool,
}

#[derive(Debug)]
pub enum AppError {
    Input(std::io::Error),
    Output(std::io::Error),
    Runtime(RuntimeError<std::io::Error>),
}

impl AppError {
    /// What failed, as the error's message starts: the message goes on with
    /// `": "` and the failing part's own message.
    pub fn context(&self) -> (context: &'static str)
        ensures
            context@ == match self {
                AppError::Input(_) => "input stream failed"@,
                AppError::Output(_) => "output stream failed"@,
                AppError::Runtime(RuntimeError::Source(_)) => "event source failed"@,
                AppError::Runtime(RuntimeError::Driver(_)) => "host driver failed"@,
            },
    {
        match self {
            AppError::Input(_) => "input stream failed",
            AppError::Output(_) => "output stream failed",
            AppError::Runtime(error) => error.context(),
        }
    }
}

/// The scaler a configuration asks for.
#[derive(Clone, Copy, Debug, PartialEq, Eq, Structural)]
pub enum AppScaler {
    Right(RightPositionScaler),
    Left(LeftPositionScaler),
    Vertical(VerticalPositionScaler),
}

impl AppScaler {
    pub fn from_config(config: Config) -> (scaler: Self)
        ensures
            scaler == match config.orientation {
                Orientation::Right => AppScaler::Right(
                    RightPositionScaler {
                        tablet_width: config.tablet_width,
                        tablet_height: config.tablet_height,
                        screen_width: config.screen_width,
                        screen_height: config.screen_height,
                    },
                ),
                Orientation::Left => AppScaler::Left(
                    LeftPositionScaler {
                        tablet_width: config.tablet_width,
                        tablet_height: config.tablet_height,
                        screen_width: config.screen_width,
                        screen_height: config.screen_height,
                    },
                ),
                Orientation::Vertical => AppScaler::Vertical(
                    VerticalPositionScaler {
                        tablet_width: config.tablet_width,
                        tablet_height: config.tablet_height,
                        screen_width: config.screen_width,
                        screen_height: config.screen_height,
                    },
                ),
            },
    {
        match config.orientation {
            Orientation::Right => AppScaler::Right(
                RightPositionScaler {
                    tablet_width: config.tablet_width,
                    tablet_height: config.tablet_height,
                    screen_width: config.screen_width,
                    screen_height: config.screen_height,
                },
            ),
            Orientation::Left => AppScaler::Left(
                LeftPositionScaler {
                    tablet_width: config.tablet_width,
                    tablet_height: config.tablet_height,
                    screen_width: config.screen_width,
                    screen_height: config.screen_height,
                },
            ),
            Orientation::Vertical => AppScaler::Vertical(
                VerticalPositionScaler {
                    tablet_width: config.tablet_width,
                    tablet_height: config.tablet_height,
                    screen_width: config.screen_width,
                    screen_height: config.screen_height,
                },
            ),
        }
    }

    /// Whether `axes` can be taken at this point without overflow.
    pub open spec fn axes_defined(self, x: i32, y: i32) -> bool {
        match self {
            AppScaler::Right(_) => true,
            AppScaler::Left(scaler) => i32::MIN <= scaler.tablet_width - x <= i32::MAX
                && i32::MIN <= scaler.tablet_height - y <= i32::MAX,
            AppScaler::Vertical(scaler) => i32::MIN <= scaler.tablet_width - x <= i32::MAX,
        }
    }

    pub fn axes_in_range(&self, x: i32, y: i32) -> (defined: bool)
        ensures
            defined == self.axes_defined(x, y),
    {
        match self {
            AppScaler::Right(_) => true,
            AppScaler::Left(scaler) => scaler.tablet_width as i64 - x as i64 <= i32::MAX as i64
                && scaler.tablet_width as i64 - x as i64 >= i32::MIN as i64
                && scaler.tablet_height as i64 - y as i64 <= i32::MAX as i64
                && scaler.tablet_height as i64 - y as i64 >= i32::MIN as i64,
            AppScaler::Vertical(scaler) => scaler.tablet_width as i64 - x as i64 <= i32::MAX as i64
                && scaler.tablet_width as i64 - x as i64 >= i32::MIN as i64,
        }
    }

    /// The per-axis scaling of the configured orientation.
    pub fn axes(&self, x: i32, y: i32) -> (axes: (AxisScale, AxisScale))
        requires
            self.axes_defined(x, y),
        ensures
            axes == match *self {
                AppScaler::Right(scaler) => (
                    AxisScale { value: x, target: scaler.screen_width, source: scaler.tablet_width },
                    AxisScale { value: y, target: scaler.screen_height, source: scaler.tablet_height },
                ),
                AppScaler::Left(scaler) => (
                    AxisScale {
                        value: (scaler.tablet_width - x) as i32,
                        target: scaler.screen_width,
                        source: scaler.tablet_width,
                    },
                    AxisScale {
                        value: (scaler.tablet_height - y) as i32,
                        target: scaler.screen_height,
                        source: scaler.tablet_height,
                    },
                ),
                AppScaler::Vertical(scaler) => (
                    AxisScale { value: y, target: scaler.screen_width, source: scaler.tablet_height },
                    AxisScale {
                        value: (scaler.tablet_width - x) as i32,
                        target: scaler.screen_height,
                        source: scaler.tablet_width,
                    },
                ),
            },
    {
        match self {
            AppScaler::Right(scaler) => scaler.axes(x, y),
            AppScaler::Left(scaler) => scaler.axes(x, y),
            AppScaler::Vertical(scaler) => scaler.axes(x, y),
        }
    }
}

pub open spec fn spec_button_name(button: MouseButton) -> Seq<char> {
    match button {
        MouseButton::Left => "left"@,
        MouseButton::Right => "right"@,
        MouseButton::Middle => "middle"@,
    }
}

pub fn button_name(button: MouseButton) -> (name: &'static str)
    ensures
        name@ == spec_button_name(button),
{
    match button {
        MouseButton::Left => "left",
        MouseButton::Right => "right",
        MouseButton::Middle => "middle",
    }
}

/// The JSON object written for one host action.
pub open spec fn action_json(action: HostAction) -> Seq<char> {
    match action {
        HostAction::Move { x, y } => "{\"action\":\"move\",\"x\":"@ + decimal(x as int) + ",\"y\":"@
            + decimal(y as int) + "}"@,
        HostAction::Drag { x, y } => "{\"action\":\"drag\",\"x\":"@ + decimal(x as int) + ",\"y\":"@
            + decimal(y as int) + "}"@,
        HostAction::Press(button) => "{\"action\":\"press\",\"button\":\""@ + spec_button_name(
            button,
        ) + "\"}"@,
        HostAction::Release(button) => "{\"action\":\"release\",\"button\":\""@ + spec_button_name(
            button,
        ) + "\"}"@,
    }
}

/// Formats one host action as a JSON object (without the line break).
pub fn action_json_line(action: HostAction) -> (line: String)
    ensures
        line@ == action_json(action),
{
    let mut line = String::new();
    match action {
        HostAction::Move { x, y } => {
            line.append("{\"action\":\"move\",\"x\":");
            append_decimal(&mut line, x as i64);
            line.append(",\"y\":");
            append_decimal(&mut line, y as i64);
            line.append("}");
        },
        HostAction::Drag { x, y } => {
            line.append("{\"action\":\"drag\",\"x\":");
            append_decimal(&mut line, x as i64);
            line.append(",\"y\":");
            append_decimal(&mut line, y as i64);
            line.append("}");
        },
        HostAction::Press(button) => {
            line.append("{\"action\":\"press\",\"button\":\"");
            line.append(button_name(button));
            line.append("\"}");
        },
        HostAction::Release(button) => {
            line.append("{\"action\":\"release\",\"button\":\"");
            line.append(button_name(button));
            line.append("\"}");
        },
    }
    assert(line@ =~= action_json(action));
    line
}

/// The JSON object written for one raw event in debug mode.
pub open spec fn event_json(event: EvdevEvent) -> Seq<char> {
    "{\"eventType\":"@ + decimal(event.event_type as int) + ",\"eventTypeName\":\""@
        + spec_event_type_name(event.event_type) + "\",\"eventCode\":"@ + decimal(
        event.code as int,
    ) + ",\"eventCodeName\":\""@ + spec_event_code_name(event.event_type, event.code)
        + "\",\"eventValue\":"@ + decimal(event.value as int) + "}"@
}

/// Formats one raw event as a JSON object (without the line break).
pub fn event_json_line(event: EvdevEvent) -> (line: String)
    ensures
        line@ == event_json(event),
{
    let mut line = String::new();
    line.append("{\"eventType\":");
    append_decimal(&mut line, event.event_type as i64);
    line.append(",\"eventTypeName\":\"");
    line.append(event_type_name(event.event_type));
    line.append("\",\"eventCode\":");
    append_decimal(&mut line, event.code as i64);
    line.append(",\"eventCodeName\":\"");
    line.append(event_code_name(event.event_type, event.code));
    line.append("\",\"eventValue\":");
    append_decimal(&mut line, event.value as i64);
    line.append("}");
    assert(line@ =~= event_json(event));
    line
}

/// The JSON Lines text for `events`: one `event_json` object per event,
/// each followed by a line break.
pub open spec fn json_lines(events: Seq<EvdevEvent>) -> Seq<char>
    decreases events.len(),
{
    if events.len() == 0 {
        Seq::empty()
    } else {
        json_lines(events.drop_last()) + event_json(events.last()) + "\n"@
    }
}

/// The debug text for a run of raw records: the JSON line of every
/// absolute event among them, in order.
pub open spec fn absolute_event_lines(bytes: Seq<u8>) -> Seq<char> {
    json_lines(keep_types(decode_records(bytes), seq![EV_ABS], true))
}

proof fn lemma_json_lines_push(events: Seq<EvdevEvent>, event: EvdevEvent)
    ensures
        json_lines(events.push(event)) == json_lines(events) + event_json(event) + "\n"@,
{
    assert(events.push(event).drop_last() =~= events);
}

/// A sink for text, written the way `std::io::Write` writes.
///
/// An output that models what it holds (`obeys_output`) states it:
/// `written` is all the text written to it so far, a successful write
/// appends its text and a failed one leaves it as it was.
pub trait TextOutput {
    open spec fn obeys_output() -> bool {
        false
    }

    open spec fn written(&self) -> Seq<char> {
        Seq::empty()
    }

    fn write_text(&mut self, text: &str) -> (result: std::io::Result<()>)
        ensures
            Self::obeys_output() ==> final(self).written() == match result {
                Ok(()) => old(self).written() + text@,
                Err(_) => old(self).written(),
            },
    ;
}

/// Text collected in memory; writing to it never fails.
impl TextOutput for String {
    open spec fn obeys_output() -> bool {
        true
    }

    open spec fn written(&self) -> Seq<char> {
        self@
    }

    fn write_text(&mut self, text: &str) -> (result: std::io::Result<()>) {
        self.append(text);
        Ok(())
    }
}

/// Writes the absolute events of a raw event stream as JSON Lines, one
/// `event_json` object per event, until the stream ends; reading and
/// writing failures are reported as input and output errors.
///
/// For a reader and an output that model what they hold: success means the
/// reader delivered whole records up to its end and the output got the line
/// of each absolute event among them; on a failure the output holds the
/// lines of the absolute events among the records before the one that
/// failed.
pub fn debug_events<R: ByteReader, W: TextOutput>(input: R, output: &mut W) -> (result: Result<
    (),
    AppError,
>)
    ensures
        !(result matches Err(AppError::Runtime(_))),
        R::obeys_stream() && W::obeys_output() ==> match result {
            Ok(()) => {
                &&& delivered_records(input.remaining()).len() % 16 == 0
                &&& final(output).written() == old(output).written() + absolute_event_lines(
                    delivered_records(input.remaining()),
                )
            },
            _ => exists|count: nat|
                16 * count <= input.remaining().len() && final(output).written() == old(
                    output,
                ).written() + absolute_event_lines(#[trigger] record_prefix(input.remaining(), count)),
        },
{
    let ghost stream = input.remaining();
    let ghost models = R::obeys_stream() && W::obeys_output();
    let reader = ReaderEventSource::new(input);
    let mut events = SelectingEventSource::new(reader, vec![EV_ABS]);
    proof {
        assert(decode_records(Seq::<u8>::empty()) =~= Seq::<EvdevEvent>::empty());
        assert(events.source().produced().skip(0) =~= events.source().produced());
        assert(output.written() =~= old(output).written() + json_lines(Seq::<EvdevEvent>::empty()));
    }
    loop
        invariant
            stream == input.remaining(),
            models == (R::obeys_stream() && W::obeys_output()),
            events.valid(),
            events.start() == 0,
            events.selected_types() == seq![EV_ABS],
            events.source().origin() == stream,
            events.source().intact(),
            events.produced() == keep_types(
                decode_records(events.source().bytes_read()),
                seq![EV_ABS],
                true,
            ),
            models ==> output.written() == old(output).written() + json_lines(events.produced()),
            events.produced().len() <= u64::MAX,
        decreases u64::MAX - events.produced().len(),
    {
        let ghost before = events.source().bytes_read();
        let ghost produced_before = events.produced();
        proof {
            lemma_reader_decodes_bytes_read(&events.source());
            if R::obeys_stream() {
                lemma_reader_reads_a_prefix(&events.source());
            }
        }
        match events.next_event() {
            Ok(Some(event)) => {
                let mut line = event_json_line(event);
                line.append("\n");
                proof {
                    lemma_reader_decodes_bytes_read(&events.source());
                    assert(events.source().produced().skip(0) =~= events.source().produced());
                }
                match output.write_text(line.as_str()) {
                    Ok(()) => {
                        proof {
                            lemma_json_lines_push(produced_before, event);
                        }
                    },
                    Err(error) => {
                        proof {
                            if models {
                                assert(record_prefix(stream, (before.len() / 16) as nat) == before);
                            }
                        }
                        return Err(AppError::Output(error));
                    },
                }
            },
            Ok(None) => {
                proof {
                    lemma_reader_decodes_bytes_read(&events.source());
                    if R::obeys_stream() {
                        lemma_ended_reader_read_everything(&events.source());
                    }
                    assert(events.source().produced().skip(0) =~= events.source().produced());
                }
                return Ok(());
            },
            Err(error) => {
                proof {
                    if models {
                        assert(record_prefix(stream, (before.len() / 16) as nat) == before);
                    }
                }
                return Err(AppError::Input(error));
            },
        }
    }
}

/// Converts a raw event stream into host actions: decodes the records,
/// keeps the absolute events, turns them into moves, drags, clicks and
/// releases (drags unless disabled), scales positions and performs each
/// action on the driver, until the stream ends. Only absolute events can
/// change the state machine, so it reads the decoded stream directly.
///
/// When the whole stream went through, the driver has performed the host
/// action of every change of some stream of records, in order; for a reader
/// that models its stream, those records are exactly the ones it delivered
/// up to its end. A failed read is a source error and a refused action a
/// driver error.
pub fn process_events<R: ByteReader, P: PositionScaler, D: HostDriver<Error = std::io::Error>>(
    input: R,
    scaler: P,
    driver: &mut D,
    config: Config,
) -> (result: Result<(), AppError>)
    ensures
        !(result matches Err(AppError::Output(_))),
        D::obeys_history() && P::obeys_scaling() ==> (result is Ok ==> exists|bytes: Seq<u8>|
            final(driver).actions() == old(driver).actions() + host_actions(
                run_events(
                    config.pressure_threshold,
                    !config.disable_drag_event,
                    keep_types(#[trigger] decode_records(bytes), seq![EV_ABS], true),
                ).1,
                scaler,
            )),
        R::obeys_stream() && D::obeys_history() && P::obeys_scaling() ==> (result is Ok ==> {
            &&& delivered_records(input.remaining()).len() % 16 == 0
            &&& final(driver).actions() == old(driver).actions() + host_actions(
                run_events(
                    config.pressure_threshold,
                    !config.disable_drag_event,
                    keep_types(
                        decode_records(delivered_records(input.remaining())),
                        seq![EV_ABS],
                        true,
                    ),
                ).1,
                scaler,
            )
        }),
{
    let ghost stream = input.remaining();
    let reader = ReaderEventSource::new(input);
    let mut changes = EvdevStateMachine::with_dragging(
        reader,
        config.pressure_threshold,
        !config.disable_drag_event,
    );
    let ghost threshold = config.pressure_threshold;
    let ghost dragging = !config.disable_drag_event;
    proof {
        assert(host_actions(run_events(threshold, dragging, Seq::<EvdevEvent>::empty()).1, scaler)
            =~= Seq::<crate::runtime::HostAction>::empty());
        assert(driver.actions() =~= old(driver).actions() + Seq::<crate::runtime::HostAction>::empty());
    }
    loop
        invariant
            threshold == config.pressure_threshold,
            dragging == !config.disable_drag_event,
            changes.valid(),
            changes.pressure_threshold() == threshold,
            changes.dragging() == dragging,
            changes.source().produced() == changes.seen(),
            changes.source().origin() == stream,
            changes.source().intact(),
            stream == input.remaining(),
            D::obeys_history() && P::obeys_scaling() ==> driver.actions() == old(driver).actions()
                + host_actions(changes.produced(), scaler),
        decreases u64::MAX - changes.seen().len(),
    {
        let ghost before = changes.produced();
        let ghost seen_before = changes.seen();
        match changes.next_change() {
            Ok(Some(change)) => {
                match dispatch(&scaler, driver, change) {
                    Ok(()) => {
                        proof {
                            let k = seen_before.len() as int;
                            assert(changes.seen() =~= changes.seen().take(k) + changes.seen().skip(k));
                            assert(changes.source().produced() =~= changes.seen());
                            assert(host_actions(before.push(change), scaler) =~= host_actions(
                                before,
                                scaler,
                            ).push(host_action(change, scaler)));
                            if D::obeys_history() && P::obeys_scaling() {
                                assert(driver.actions() =~= old(driver).actions() + host_actions(
                                    changes.produced(),
                                    scaler,
                                ));
                            }
                        }
                    },
                    Err(error) => {
                        return Err(AppError::Runtime(crate::runtime::RuntimeError::Driver(error)));
                    },
                }
            },
            Ok(None) => {
                proof {
                    let bytes = changes.source().bytes_read();
                    lemma_reader_decodes_bytes_read(&changes.source());
                    if R::obeys_stream() {
                        lemma_ended_reader_read_everything(&changes.source());
                    }
                    lemma_only_absolute_events_matter(threshold, dragging, decode_records(bytes));
                    let k = seen_before.len() as int;
                    assert(changes.seen() =~= changes.seen().take(k) + changes.seen().skip(k));
                    assert(changes.source().produced() =~= changes.seen());
                    assert(changes.seen() == decode_records(bytes));
                    if D::obeys_history() && P::obeys_scaling() {
                        assert(driver.actions() == old(driver).actions() + host_actions(
                            run_events(
                                config.pressure_threshold,
                                !config.disable_drag_event,
                                keep_types(decode_records(bytes), seq![EV_ABS], true),
                            ).1,
                            scaler,
                        ));
                    }
                }
                return Ok(());
            },
            Err(error) => {
                return Err(AppError::Runtime(crate::runtime::RuntimeError::Source(error)));
            },
        }
    }
}

} // verus!
