use vstd::prelude::*;

use crate::event::{
    EvdevEvent, EventSource, ABS_PRESSURE, ABS_TILT_X, ABS_TILT_Y, ABS_X, ABS_Y, EV_ABS, EV_SYN,
    SYN_REPORT,
};
use crate::invalid_input;
use crate::scale::PositionScaler;

verus! {

pub const DEFAULT_TABLET_PRESSURE_MAX: i32 = 4_095;

pub const DEFAULT_TABLET_TILT_MAX: i32 = 9_000;

#[derive(Clone, Copy, Debug, PartialEq, Eq, Structural)]
pub enum PenPhase {
    Hover,
    Down,
    Contact,
    Up,
}

/// One complete pen frame.
#[derive(Clone, Copy, Debug, PartialEq, Eq, Structural)]
pub struct PenInput {
    pub x: i32,
    pub y: i32,
    pub pressure: u32,
    pub tilt_x: Option<i32>,
    pub tilt_y: Option<i32>,
    pub rotation: Option<u32>,
    pub phase: PenPhase,
    pub position_changed: bool,
}

/// A pull-based stream of pen frames; `produced` is the history of frames
/// handed out so far.
pub trait PenSource {
    /// Well-formedness of the source's internal state; a source that does
    /// not state it promises nothing.
    open spec fn valid(&self) -> bool {
        false
    }

    open spec fn produced(&self) -> Seq<PenInput> {
        Seq::empty()
    }

    /// Whether the stream has ended; once it has, every pull reports the end.
    open spec fn ended(&self) -> bool {
        false
    }

    /// The error of the last pull, if it failed.
    open spec fn failure(&self) -> Option<std::io::Error> {
        None
    }

    /// Whether no pull has failed yet.
    open spec fn intact(&self) -> bool {
        true
    }

    /// Returns the next complete pen frame.
    fn next_pen(&mut self) -> (next: std::io::Result<Option<PenInput>>)
        requires
            old(self).valid(),
        ensures
            final(self).valid(),
            match next {
                Ok(Some(frame)) => final(self).produced() == old(self).produced().push(frame),
                _ => final(self).produced() == old(self).produced(),
            },
            old(self).ended() ==> next matches Ok(None),
            final(self).ended() == (old(self).ended() || next matches Ok(None)),
            final(self).failure() == match next {
                Err(error) => Some(error),
                _ => None,
            },
            final(self).intact() == (old(self).intact() && !(next is Err)),
    ;
}

/// A host that accepts pen frames; `injected` is the history of frames it
/// accepted and `attempted` the history of every frame it was handed,
/// accepted or not. A frame that fails leaves the accepted history as it was.
///
/// Only a driver that declares it keeps these histories (`obeys_history`)
/// promises them; for any other driver the contract below says nothing.
pub trait PenDriver {
    type Error;

    open spec fn obeys_history() -> bool {
        false
    }

    open spec fn injected(&self) -> Seq<PenInput> {
        Seq::empty()
    }

    open spec fn attempted(&self) -> Seq<PenInput> {
        Seq::empty()
    }

    /// Injects one normalized host pen frame.
    fn inject_pen(&mut self, input: PenInput) -> (injected: Result<(), Self::Error>)
        ensures
            Self::obeys_history() ==> {
                &&& final(self).attempted() == old(self).attempted().push(input)
                &&& injected is Ok ==> final(self).injected() == old(self).injected().push(input)
                &&& injected is Err ==> final(self).injected() == old(self).injected()
            },
    ;
}

#[derive(Clone, Copy, Debug, PartialEq, Eq, Structural)]
pub enum PenOrientation {
    Right,
    Left,
    Vertical,
}

#[derive(Clone, Copy, Debug, PartialEq, Eq, Structural)]
pub struct PenCalibration {
    pub pressure_max: i32,
    pub tilt_max: i32,
    pub rotation_max: Option<i32>,
}

/// Every enabled calibration maximum is positive.
pub open spec fn calibration_is_valid(calibration: PenCalibration) -> bool {
    &&& calibration.pressure_max > 0
    &&& calibration.tilt_max > 0
    &&& calibration.rotation_max matches Some(maximum) ==> maximum > 0
}

impl PenCalibration {
    /// Validates calibration maxima.
    pub fn validate(self) -> (validated: std::io::Result<Self>)
        ensures
            validated is Ok <==> calibration_is_valid(self),
            validated matches Ok(calibration) ==> calibration == self,
    {
        if self.pressure_max <= 0 {
            return Err(invalid_input("tablet pressure maximum must be positive"));
        }
        if self.tilt_max <= 0 {
            return Err(invalid_input("tablet tilt maximum must be positive"));
        }
        match self.rotation_max {
            Some(maximum) => {
                if maximum <= 0 {
                    return Err(invalid_input("tablet rotation maximum must be positive"));
                }
            },
            None => {},
        }
        Ok(self)
    }
}

/// `min(value, source maximum) * target_max / source maximum`, where a
/// negative source maximum counts as 1 and the product saturates at `u32::MAX`.
pub open spec fn spec_normalize_u32(value: u32, source_max: i32, target_max: u32) -> int {
    let maximum: int = if source_max < 0 {
        1
    } else {
        source_max as int
    };
    let clamped: int = if value < maximum {
        value as int
    } else {
        maximum
    };
    let product: int = if clamped * target_max > u32::MAX {
        u32::MAX as int
    } else {
        clamped * target_max
    };
    product / maximum
}

pub fn normalize_u32(value: u32, source_max: i32, target_max: u32) -> (normalized: u32)
    requires
        source_max != 0,
    ensures
        normalized == spec_normalize_u32(value, source_max, target_max),
        normalized <= target_max,
{
    let maximum: u32 = if source_max < 0 {
        1
    } else {
        source_max as u32
    };
    let clamped: u32 = if value < maximum {
        value
    } else {
        maximum
    };
    let wide_clamped: u64 = clamped as u64;
    let wide_target: u64 = target_max as u64;
    assert(wide_clamped * wide_target <= u64::MAX) by (nonlinear_arith)
        requires
            wide_clamped <= u32::MAX,
            wide_target <= u32::MAX,
    ;
    let product: u32 = if wide_clamped * wide_target > u32::MAX as u64 {
        u32::MAX
    } else {
        clamped * target_max
    };
    assert(product / maximum <= target_max) by (nonlinear_arith)
        requires
            maximum >= 1,
            clamped <= maximum,
            product <= clamped * target_max,
    ;
    product / maximum
}

/// Integer division that truncates towards zero, as Rust's `/` does.
pub open spec fn truncating_div(a: int, b: int) -> int {
    if a >= 0 {
        a / b
    } else {
        -((-a) / b)
    }
}

/// A product saturated to the range of `i32`, as `i32::saturating_mul` gives it.
pub open spec fn saturate_i32(value: int) -> int {
    if value > i32::MAX {
        i32::MAX as int
    } else if value < i32::MIN {
        i32::MIN as int
    } else {
        value
    }
}

/// The tilt clamped to `[-maximum, maximum]` and rescaled to degrees; the
/// product with 90 saturates at the bounds of `i32` before the division.
pub open spec fn spec_normalize_tilt(value: i32, maximum: i32) -> int {
    let clamped: int = if value < -maximum {
        -maximum
    } else if value > maximum {
        maximum as int
    } else {
        value as int
    };
    truncating_div(saturate_i32(clamped * 90), maximum as int)
}

pub fn normalize_tilt(value: i32, maximum: i32) -> (normalized: i32)
    requires
        maximum > 0,
    ensures
        normalized == spec_normalize_tilt(value, maximum),
        -90 <= normalized <= 90,
{
    let clamped: i32 = if value < -maximum {
        -maximum
    } else if value > maximum {
        maximum
    } else {
        value
    };
    let product: i64 = clamped as i64 * 90;
    let degrees: i64 = if product > i32::MAX as i64 {
        i32::MAX as i64
    } else if product < i32::MIN as i64 {
        i32::MIN as i64
    } else {
        product
    };
    let normalized: i64 = if degrees >= 0 {
        degrees / maximum as i64
    } else {
        -((-degrees) / maximum as i64)
    };
    assert(-90 <= normalized <= 90) by (nonlinear_arith)
        requires
            maximum > 0,
            -maximum <= clamped <= maximum,
            product == clamped * 90,
            degrees >= 0 ==> degrees <= product,
            degrees < 0 ==> degrees >= product,
            normalized == truncating_div(degrees as int, maximum as int),
    ;
    normalized as i32
}

pub open spec fn wrapping_neg_i32(value: i32) -> i32 {
    if value == i32::MIN {
        i32::MIN
    } else {
        -value as i32
    }
}

pub open spec fn spec_transform_tilt(
    tilt_x: Option<i32>,
    tilt_y: Option<i32>,
    orientation: PenOrientation,
    maximum: i32,
) -> (Option<i32>, Option<i32>) {
    let x = match tilt_x {
        Some(value) => Some(spec_normalize_tilt(value, maximum) as i32),
        None => None,
    };
    let y = match tilt_y {
        Some(value) => Some(spec_normalize_tilt(value, maximum) as i32),
        None => None,
    };
    let negate = |v: Option<i32>|
        match v {
            Some(value) => Some(wrapping_neg_i32(value)),
            None => None,
        };
    match orientation {
        PenOrientation::Right => (x, y),
        PenOrientation::Left => (negate(x), negate(y)),
        PenOrientation::Vertical => (y, negate(x)),
    }
}

/// A tilt in degrees lies within a quarter turn either way and keeps the
/// sign of the reported tilt.
proof fn lemma_normalized_tilt_bounds(value: i32, maximum: i32)
    requires
        maximum > 0,
    ensures
        -90 <= spec_normalize_tilt(value, maximum) <= 90,
        value > 0 ==> spec_normalize_tilt(value, maximum) >= 0,
        value < 0 ==> spec_normalize_tilt(value, maximum) <= 0,
{
    let clamped: int = if value < -maximum {
        -maximum
    } else if value > maximum {
        maximum as int
    } else {
        value as int
    };
    let degrees = saturate_i32(clamped * 90);
    assert(-90 <= truncating_div(degrees, maximum as int) <= 90) by (nonlinear_arith)
        requires
            maximum > 0,
            -maximum <= clamped <= maximum,
            degrees >= 0 ==> degrees <= clamped * 90,
            degrees < 0 ==> degrees >= clamped * 90,
    ;
    assert(value > 0 ==> truncating_div(degrees, maximum as int) >= 0) by (nonlinear_arith)
        requires
            maximum > 0,
            value > 0 ==> clamped > 0,
            clamped > 0 ==> degrees > 0,
    ;
    assert(value < 0 ==> truncating_div(degrees, maximum as int) <= 0) by (nonlinear_arith)
        requires
            maximum > 0,
            value < 0 ==> clamped < 0,
            clamped < 0 ==> degrees < 0,
    ;
}

/// Tilt follows the tablet's orientation. Upright (Right) a known tilt
/// stays known, lies within 90 degrees either way and keeps its sign; turned
/// half a turn (Left) both axes are mirrored; turned a quarter (Vertical)
/// the axes swap and the new y axis is the mirrored x.
pub proof fn lemma_tilt_follows_orientation(
    tilt_x: Option<i32>,
    tilt_y: Option<i32>,
    maximum: i32,
)
    requires
        maximum > 0,
    ensures
        ({
            let right = spec_transform_tilt(tilt_x, tilt_y, PenOrientation::Right, maximum);
            let left = spec_transform_tilt(tilt_x, tilt_y, PenOrientation::Left, maximum);
            let vertical = spec_transform_tilt(tilt_x, tilt_y, PenOrientation::Vertical, maximum);
            &&& (right.0 is Some) == (tilt_x is Some)
            &&& (right.1 is Some) == (tilt_y is Some)
            &&& right.0 matches Some(r) ==> {
                &&& -90 <= r <= 90
                &&& tilt_x->0 > 0 ==> r >= 0
                &&& tilt_x->0 < 0 ==> r <= 0
            }
            &&& right.1 matches Some(r) ==> {
                &&& -90 <= r <= 90
                &&& tilt_y->0 > 0 ==> r >= 0
                &&& tilt_y->0 < 0 ==> r <= 0
            }
            &&& (left.0 is Some) == (right.0 is Some)
            &&& (left.1 is Some) == (right.1 is Some)
            &&& left.0 matches Some(l) ==> l == -right.0->0
            &&& left.1 matches Some(l) ==> l == -right.1->0
            &&& vertical.0 == right.1
            &&& (vertical.1 is Some) == (right.0 is Some)
            &&& vertical.1 matches Some(v) ==> v == -right.0->0
        }),
{
    if let Some(value) = tilt_x {
        lemma_normalized_tilt_bounds(value, maximum);
    }
    if let Some(value) = tilt_y {
        lemma_normalized_tilt_bounds(value, maximum);
    }
}

fn negate_tilt(tilt: Option<i32>) -> (negated: Option<i32>)
    requires
        tilt matches Some(value) ==> -90 <= value <= 90,
    ensures
        negated == match tilt {
            Some(value) => Some(wrapping_neg_i32(value)),
            None => None,
        },
{
    match tilt {
        Some(value) => Some(-value),
        None => None,
    }
}

pub fn transform_tilt(
    tilt_x: Option<i32>,
    tilt_y: Option<i32>,
    orientation: PenOrientation,
    maximum: i32,
) -> (tilt: (Option<i32>, Option<i32>))
    requires
        maximum > 0,
    ensures
        tilt == spec_transform_tilt(tilt_x, tilt_y, orientation, maximum),
{
    let x = match tilt_x {
        Some(value) => Some(normalize_tilt(value, maximum)),
        None => None,
    };
    let y = match tilt_y {
        Some(value) => Some(normalize_tilt(value, maximum)),
        None => None,
    };
    match orientation {
        PenOrientation::Right => (x, y),
        PenOrientation::Left => (negate_tilt(x), negate_tilt(y)),
        PenOrientation::Vertical => (y, negate_tilt(x)),
    }
}

/// The rotation offset of each orientation, in degrees.
pub open spec fn rotation_offset(orientation: PenOrientation) -> int {
    match orientation {
        PenOrientation::Right => 0,
        PenOrientation::Left => 180,
        PenOrientation::Vertical => 90,
    }
}

pub fn transform_rotation(rotation: u32, orientation: PenOrientation) -> (rotated: u32)
    requires
        rotation + 180 <= u32::MAX,
    ensures
        rotated == (rotation + rotation_offset(orientation)) % 360,
{
    let offset: u32 = match orientation {
        PenOrientation::Right => 0,
        PenOrientation::Left => 180,
        PenOrientation::Vertical => 90,
    };
    (rotation + offset) % 360
}


/// What the frame assembler remembers between events.
#[derive(Clone, Copy, Debug, PartialEq, Eq, Structural)]
pub struct PenState {
    pub x: Option<i32>,
    pub y: Option<i32>,
    pub pressure: i32,
    pub tilt_x: Option<i32>,
    pub tilt_y: Option<i32>,
    pub rotation: Option<i32>,
    pub frame_changed: bool,
    pub position_changed: bool,
    pub contacting: bool,
}

pub open spec fn initial_pen_state() -> PenState {
    PenState {
        x: None,
        y: None,
        pressure: 0,
        tilt_x: None,
        tilt_y: None,
        rotation: None,
        frame_changed: false,
        position_changed: false,
        contacting: false,
    }
}

/// Records one absolute axis value; a value that differs from the last one
/// marks the frame (and, for coordinates, the position) as changed.
pub open spec fn pen_apply(state: PenState, event_type: u16, code: u16, value: i32) -> PenState {
    if event_type != EV_ABS {
        state
    } else if code == ABS_X {
        let changed = state.x != Some(value);
        PenState {
            x: Some(value),
            frame_changed: state.frame_changed || changed,
            position_changed: state.position_changed || changed,
            ..state
        }
    } else if code == ABS_Y {
        let changed = state.y != Some(value);
        PenState {
            y: Some(value),
            frame_changed: state.frame_changed || changed,
            position_changed: state.position_changed || changed,
            ..state
        }
    } else if code == ABS_PRESSURE {
        PenState {
            pressure: value,
            frame_changed: state.frame_changed || state.pressure != value,
            ..state
        }
    } else if code == ABS_TILT_X {
        PenState {
            tilt_x: Some(value),
            frame_changed: state.frame_changed || state.tilt_x != Some(value),
            ..state
        }
    } else if code == ABS_TILT_Y {
        PenState {
            tilt_y: Some(value),
            frame_changed: state.frame_changed || state.tilt_y != Some(value),
            ..state
        }
    } else {
        state
    }
}

/// Contact phase from whether the pen touched before and touches now.
pub open spec fn contact_phase(was_contacting: bool, contacting: bool) -> PenPhase {
    match (was_contacting, contacting) {
        (false, false) => PenPhase::Hover,
        (false, true) => PenPhase::Down,
        (true, true) => PenPhase::Contact,
        (true, false) => PenPhase::Up,
    }
}

pub open spec fn unsigned_abs_i32(value: i32) -> u32 {
    if value >= 0 {
        value as u32
    } else {
        (-value) as u32
    }
}

/// Closes a frame: nothing when nothing changed or a coordinate is still
/// unknown; otherwise a frame whose contact follows the pressure threshold
/// (pressure equal to the threshold keeps the previous contact).
pub open spec fn pen_finish(pressure_threshold: i32, state: PenState) -> (PenState, Option<PenInput>) {
    if !state.frame_changed || state.x is None || state.y is None {
        (state, None)
    } else {
        let contacting = if state.pressure > pressure_threshold {
            true
        } else if state.pressure < pressure_threshold {
            false
        } else {
            state.contacting
        };
        (
            PenState {
                contacting,
                frame_changed: false,
                position_changed: false,
                ..state
            },
            Some(
                PenInput {
                    x: state.x->0,
                    y: state.y->0,
                    pressure: if state.pressure > 0 {
                        state.pressure as u32
                    } else {
                        0
                    },
                    tilt_x: state.tilt_x,
                    tilt_y: state.tilt_y,
                    rotation: match state.rotation {
                        Some(rotation) => Some(unsigned_abs_i32(rotation)),
                        None => None,
                    },
                    phase: contact_phase(state.contacting, contacting),
                    position_changed: state.position_changed,
                },
            ),
        )
    }
}

/// Closing a frame keeps every recorded axis value: only the contact flag
/// and the change flags move, so a later frame carries the position,
/// pressure, tilt and rotation last reported.
pub proof fn lemma_closing_keeps_axis_values(pressure_threshold: i32, state: PenState)
    ensures
        ({
            let next = pen_finish(pressure_threshold, state).0;
            &&& next.x == state.x
            &&& next.y == state.y
            &&& next.pressure == state.pressure
            &&& next.tilt_x == state.tilt_x
            &&& next.tilt_y == state.tilt_y
            &&& next.rotation == state.rotation
        }),
{
}

/// The frame-closing rule: with nothing changed or a coordinate unknown,
/// closing gives no frame and keeps the state; otherwise the frame carries
/// the latest values, touches when the pressure is above the threshold or
/// equal to it while already touching, takes its phase from the contact
/// before and after, reports negative pressure as 0, and a second closing
/// with no event between gives no frame.
pub proof fn lemma_frame_closing_rule(pressure_threshold: i32, state: PenState)
    ensures
        ({
            let (next, frame) = pen_finish(pressure_threshold, state);
            let now = state.pressure > pressure_threshold || (state.pressure == pressure_threshold
                && state.contacting);
            &&& (!state.frame_changed || state.x is None || state.y is None) ==> frame is None
                && next == state
            &&& frame matches Some(g) ==> {
                &&& Some(g.x) == state.x && Some(g.y) == state.y
                &&& g.tilt_x == state.tilt_x && g.tilt_y == state.tilt_y
                &&& g.pressure == (if state.pressure > 0 {
                    state.pressure as u32
                } else {
                    0u32
                })
                &&& g.phase == contact_phase(state.contacting, now)
                &&& g.position_changed == state.position_changed
                &&& next.contacting == now
            }
            &&& pen_finish(pressure_threshold, next).1 is None
        }),
{
}

/// One event for the frame assembler: a report closes the frame, any other
/// event is recorded.
pub open spec fn pen_step(pressure_threshold: i32, state: PenState, event: EvdevEvent) -> (
    PenState,
    Option<PenInput>,
) {
    if event.event_type == EV_SYN && event.code == SYN_REPORT {
        pen_finish(pressure_threshold, state)
    } else {
        (pen_apply(state, event.event_type, event.code, event.value), None)
    }
}

/// The assembler state after, and the frames produced by, a run of events.
pub open spec fn pen_run(pressure_threshold: i32, events: Seq<EvdevEvent>) -> (PenState, Seq<PenInput>)
    decreases events.len(),
{
    if events.len() == 0 {
        (initial_pen_state(), Seq::empty())
    } else {
        let before = pen_run(pressure_threshold, events.drop_last());
        let step = pen_step(pressure_threshold, before.0, events.last());
        (
            step.0,
            match step.1 {
                Some(frame) => before.1.push(frame),
                None => before.1,
            },
        )
    }
}

/// The frames of a stream that has ended: the run's frames followed by the
/// frame flushed at the end, if any.
pub open spec fn pen_run_to_end(pressure_threshold: i32, events: Seq<EvdevEvent>) -> (PenState, Seq<
    PenInput,
>) {
    let run = pen_run(pressure_threshold, events);
    let last = pen_finish(pressure_threshold, run.0);
    (
        last.0,
        match last.1 {
            Some(frame) => run.1.push(frame),
            None => run.1,
        },
    )
}

proof fn lemma_pen_run_push(pressure_threshold: i32, events: Seq<EvdevEvent>, event: EvdevEvent)
    ensures
        ({
            let before = pen_run(pressure_threshold, events);
            let step = pen_step(pressure_threshold, before.0, event);
            pen_run(pressure_threshold, events.push(event)) == (
                step.0,
                match step.1 {
                    Some(frame) => before.1.push(frame),
                    None => before.1,
                },
            )
        }),
{
    assert(events.push(event).drop_last() =~= events);
}

/// Assembles Evdev events into pen frames, one per report that changed something.
pub struct EvdevPenFrameSource<S> {
    source: S,
    pressure_threshold: i32,
    x: Option<i32>,
    y: Option<i32>,
    pressure: i32,
    tilt_x: Option<i32>,
    tilt_y: Option<i32>,
    rotation: Option<i32>,
    frame_changed: bool,
    position_changed: bool,
    contacting: bool,
    finished: bool,
    seen: Ghost<Seq<EvdevEvent>>,
    ended: Ghost<bool>,
    failure: Ghost<Option<std::io::Error>>,
    broken: Ghost<bool>,
}

impl<S> EvdevPenFrameSource<S> {
    pub closed spec fn source(&self) -> S {
        self.source
    }

    pub closed spec fn pressure_threshold(&self) -> i32 {
        self.pressure_threshold
    }

    pub closed spec fn finished(&self) -> bool {
        self.finished
    }

    /// The events consumed so far.
    pub closed spec fn seen(&self) -> Seq<EvdevEvent> {
        self.seen@
    }

    /// Whether the end of the frames has been reported.
    pub closed spec fn end_reported(&self) -> bool {
        self.ended@
    }

    /// The error of the last pull, if it failed.
    pub closed spec fn last_failure(&self) -> Option<std::io::Error> {
        self.failure@
    }

    /// Whether no pull has failed yet.
    pub closed spec fn never_failed(&self) -> bool {
        !self.broken@
    }

    pub closed spec fn state(&self) -> PenState {
        PenState {
            x: self.x,
            y: self.y,
            pressure: self.pressure,
            tilt_x: self.tilt_x,
            tilt_y: self.tilt_y,
            rotation: self.rotation,
            frame_changed: self.frame_changed,
            position_changed: self.position_changed,
            contacting: self.contacting,
        }
    }

    pub fn new(source: S, pressure_threshold: i32) -> (frames: Self)
        ensures
            frames.source() == source,
            frames.pressure_threshold() == pressure_threshold,
            !frames.finished(),
            !frames.end_reported(),
            frames.seen() == Seq::<EvdevEvent>::empty(),
            frames.state() == initial_pen_state(),
    {
        EvdevPenFrameSource {
            source,
            pressure_threshold,
            x: None,
            y: None,
            pressure: 0,
            tilt_x: None,
            tilt_y: None,
            rotation: None,
            frame_changed: false,
            position_changed: false,
            contacting: false,
            finished: false,
            seen: Ghost(Seq::empty()),
            ended: Ghost(false),
            failure: Ghost(None),
            broken: Ghost(false),
        }
    }

    fn apply(&mut self, event_type: u16, code: u16, value: i32)
        ensures
            final(self).state() == pen_apply(old(self).state(), event_type, code, value),
            final(self).source == old(self).source,
            final(self).pressure_threshold == old(self).pressure_threshold,
            final(self).finished == old(self).finished,
            final(self).seen == old(self).seen,
            final(self).ended == old(self).ended,
            final(self).failure == old(self).failure,
            final(self).broken == old(self).broken,
    {
        if event_type != EV_ABS {
            return ;
        }
        if code == ABS_X {
            let changed = match self.x {
                Some(x) => x != value,
                None => true,
            };
            if changed {
                self.frame_changed = true;
                self.position_changed = true;
            }
            self.x = Some(value);
        } else if code == ABS_Y {
            let changed = match self.y {
                Some(y) => y != value,
                None => true,
            };
            if changed {
                self.frame_changed = true;
                self.position_changed = true;
            }
            self.y = Some(value);
        } else if code == ABS_PRESSURE {
            if self.pressure != value {
                self.frame_changed = true;
            }
            self.pressure = value;
        } else if code == ABS_TILT_X {
            let changed = match self.tilt_x {
                Some(tilt) => tilt != value,
                None => true,
            };
            if changed {
                self.frame_changed = true;
            }
            self.tilt_x = Some(value);
        } else if code == ABS_TILT_Y {
            let changed = match self.tilt_y {
                Some(tilt) => tilt != value,
                None => true,
            };
            if changed {
                self.frame_changed = true;
            }
            self.tilt_y = Some(value);
        }
    }

    /// Closes the current frame, as `pen_finish` says.
    pub fn finish_frame(&mut self) -> (frame: Option<PenInput>)
        ensures
            (final(self).state(), frame) == pen_finish(
                old(self).pressure_threshold(),
                old(self).state(),
            ),
            final(self).source() == old(self).source(),
            final(self).pressure_threshold() == old(self).pressure_threshold(),
            final(self).finished() == old(self).finished(),
            final(self).seen() == old(self).seen(),
            final(self).end_reported() == old(self).end_reported(),
            final(self).last_failure() == old(self).last_failure(),
            final(self).never_failed() == old(self).never_failed(),
    {
        if !self.frame_changed {
            return None;
        }
        let (x, y) = match (self.x, self.y) {
            (Some(x), Some(y)) => (x, y),
            _ => {
                return None;
            },
        };
        let next_contacting = if self.pressure > self.pressure_threshold {
            true
        } else if self.pressure < self.pressure_threshold {
            false
        } else {
            self.contacting
        };
        let phase = match (self.contacting, next_contacting) {
            (false, false) => PenPhase::Hover,
            (false, true) => PenPhase::Down,
            (true, true) => PenPhase::Contact,
            (true, false) => PenPhase::Up,
        };
        self.contacting = next_contacting;
        let position_changed = self.position_changed;
        self.frame_changed = false;
        self.position_changed = false;
        let pressure: u32 = if self.pressure > 0 {
            self.pressure as u32
        } else {
            0
        };
        let rotation = match self.rotation {
            Some(rotation) => Some(unsigned_abs(rotation)),
            None => None,
        };
        Some(
            PenInput {
                x,
                y,
                pressure,
                tilt_x: self.tilt_x,
                tilt_y: self.tilt_y,
                rotation,
                phase,
                position_changed,
            },
        )
    }
}

fn unsigned_abs(value: i32) -> (magnitude: u32)
    ensures
        magnitude == unsigned_abs_i32(value),
{
    if value >= 0 {
        value as u32
    } else if value == i32::MIN {
        2147483648
    } else {
        (-value) as u32
    }
}

impl<S: EventSource> PenSource for EvdevPenFrameSource<S> {
    open spec fn valid(&self) -> bool {
        &&& self.source().valid()
        &&& self.source().produced().len() <= u64::MAX
        &&& self.end_reported() ==> self.finished()
        &&& self.state() == if self.finished() {
            pen_run_to_end(self.pressure_threshold(), self.seen()).0
        } else {
            pen_run(self.pressure_threshold(), self.seen()).0
        }
    }

    open spec fn produced(&self) -> Seq<PenInput> {
        if self.finished() {
            pen_run_to_end(self.pressure_threshold(), self.seen()).1
        } else {
            pen_run(self.pressure_threshold(), self.seen()).1
        }
    }

    open spec fn ended(&self) -> bool {
        self.end_reported()
    }

    open spec fn failure(&self) -> Option<std::io::Error> {
        self.last_failure()
    }

    open spec fn intact(&self) -> bool {
        self.never_failed()
    }

    fn next_pen(&mut self) -> (next: std::io::Result<Option<PenInput>>)
        ensures
            final(self).pressure_threshold() == old(self).pressure_threshold(),
            old(self).finished() ==> (next matches Ok(None)) && final(self).source() == old(
                self,
            ).source() && final(self).seen() == old(self).seen() && final(self).state() == old(
                self,
            ).state() && final(self).finished(),
            next matches Ok(None) ==> final(self).finished(),
            next is Err ==> final(self).last_failure() == final(self).source().failure(),
            final(self).seen().take(old(self).seen().len() as int) == old(self).seen(),
            final(self).source().produced() == old(self).source().produced() + final(self).seen().skip(
                old(self).seen().len() as int,
            ),
    {
        if self.finished {
            self.ended = Ghost(true);
            self.failure = Ghost(None);
            return Ok(None);
        }
        loop
            invariant
                self.valid(),
                !self.finished(),
                !old(self).finished(),
                !self.end_reported(),
                !old(self).end_reported(),
                self.never_failed() == old(self).never_failed(),
                self.pressure_threshold() == old(self).pressure_threshold(),
                self.produced() == old(self).produced(),
                self.seen().len() >= old(self).seen().len(),
                self.seen().take(old(self).seen().len() as int) == old(self).seen(),
                self.source().produced() == old(self).source().produced() + self.seen().skip(
                    old(self).seen().len() as int,
                ),
            decreases u64::MAX - self.source().produced().len(),
        {
            let ghost seen_before = self.seen();
            match self.source.next_event() {
                Ok(Some(event)) => {
                    proof {
                        lemma_pen_run_push(self.pressure_threshold, seen_before, event);
                        let k = old(self).seen().len() as int;
                        assert(seen_before.push(event).take(k) =~= seen_before.take(k));
                        assert(seen_before.push(event).skip(k) =~= seen_before.skip(k).push(event));
                        assert(self.source().produced() =~= old(self).source().produced()
                            + seen_before.push(event).skip(k));
                    }
                    self.seen = Ghost(self.seen@.push(event));
                    if event.event_type == EV_SYN && event.code == SYN_REPORT {
                        let frame = self.finish_frame();
                        if let Some(frame) = frame {
                            self.failure = Ghost(None);
                            return Ok(Some(frame));
                        }
                    } else {
                        self.apply(event.event_type, event.code, event.value);
                    }
                },
                Ok(None) => {
                    self.finished = true;
                    let frame = self.finish_frame();
                    if frame.is_none() {
                        self.ended = Ghost(true);
                    }
                    self.failure = Ghost(None);
                    return Ok(frame);
                },
                Err(error) => {
                    self.failure = Ghost(Some(error));
                    self.broken = Ghost(true);
                    return Err(error);
                },
            }
        }
    }
}


#[derive(Debug)]
pub enum PenRuntimeError<E> {
    Source(std::io::Error),
    Driver(E),
}

impl<E> PenRuntimeError<E> {
    /// What failed, as the error's message starts: the message goes on with
    /// `": "` and the failing part's own message.
    pub fn context(&self) -> (context: &'static str)
        ensures
            context@ == match self {
                PenRuntimeError::Source(_) => "pen source failed"@,
                PenRuntimeError::Driver(_) => "pen driver failed"@,
            },
    {
        match self {
            PenRuntimeError::Source(_) => "pen source failed",
            PenRuntimeError::Driver(_) => "pen driver failed",
        }
    }
}

/// The host frame made of a tablet frame: position scaled and moved to the
/// screen origin, pressure on a 0..=1024 scale, tilt in degrees and rotation
/// in degrees turned with the orientation (only when a rotation maximum is
/// calibrated).
pub open spec fn host_pen_frame(
    input: PenInput,
    scaled: (i32, i32),
    orientation: PenOrientation,
    calibration: PenCalibration,
    screen_origin: (i32, i32),
) -> PenInput {
    let tilt = spec_transform_tilt(input.tilt_x, input.tilt_y, orientation, calibration.tilt_max);
    PenInput {
        x: vstd::wrapping::i32_specs::wrapping_add(scaled.0, screen_origin.0),
        y: vstd::wrapping::i32_specs::wrapping_add(scaled.1, screen_origin.1),
        pressure: spec_normalize_u32(input.pressure, calibration.pressure_max, 1_024) as u32,
        tilt_x: tilt.0,
        tilt_y: tilt.1,
        rotation: match (input.rotation, calibration.rotation_max) {
            (Some(rotation), Some(maximum)) => Some(
                ((spec_normalize_u32(rotation, maximum, 359) + rotation_offset(orientation)) % 360) as u32,
            ),
            _ => None,
        },
        phase: input.phase,
        position_changed: input.position_changed,
    }
}

/// Reads pen frames, normalizes them for the host and injects them.
pub struct PenRuntime<S, P, D> {
    source: S,
    scaler: P,
    driver: D,
    orientation: PenOrientation,
    calibration: PenCalibration,
    screen_origin: (i32, i32),
}

impl<S, P, D> PenRuntime<S, P, D> {
    pub closed spec fn source(&self) -> S {
        self.source
    }

    pub closed spec fn scaler(&self) -> P {
        self.scaler
    }

    pub closed spec fn driver(&self) -> D {
        self.driver
    }

    pub closed spec fn orientation(&self) -> PenOrientation {
        self.orientation
    }

    pub closed spec fn calibration(&self) -> PenCalibration {
        self.calibration
    }

    pub closed spec fn screen_origin(&self) -> (i32, i32) {
        self.screen_origin
    }

    /// Creates a normalized pen runtime; fails when a calibration maximum is
    /// not positive.
    pub fn new(
        source: S,
        scaler: P,
        driver: D,
        orientation: PenOrientation,
        calibration: PenCalibration,
        screen_origin: (i32, i32),
    ) -> (runtime: std::io::Result<Self>)
        ensures
            runtime is Ok <==> calibration_is_valid(calibration),
            runtime matches Ok(runtime) ==> {
                &&& runtime.source() == source
                &&& runtime.scaler() == scaler
                &&& runtime.driver() == driver
                &&& runtime.orientation() == orientation
                &&& runtime.calibration() == calibration
                &&& runtime.screen_origin() == screen_origin
            },
    {
        let calibration = match calibration.validate() {
            Ok(calibration) => calibration,
            Err(error) => {
                return Err(error);
            },
        };
        Ok(PenRuntime { source, scaler, driver, orientation, calibration, screen_origin })
    }

    pub fn into_parts(self) -> (parts: (S, P, D))
        ensures
            parts == (self.source(), self.scaler(), self.driver()),
    {
        (self.source, self.scaler, self.driver)
    }
}

impl<S: PenSource, P: PositionScaler, D: PenDriver> PenRuntime<S, P, D> {
    /// Processes one complete pen frame: `Ok(false)` when the source has
    /// ended, `Ok(true)` when the normalized frame was injected.
    pub fn step(&mut self) -> (stepped: Result<bool, PenRuntimeError<D::Error>>)
        requires
            old(self).source().valid(),
            calibration_is_valid(old(self).calibration()),
        ensures
            final(self).source().valid(),
            final(self).scaler() == old(self).scaler(),
            final(self).orientation() == old(self).orientation(),
            final(self).calibration() == old(self).calibration(),
            final(self).screen_origin() == old(self).screen_origin(),
            match stepped {
                Ok(true) => {
                    let input = final(self).source().produced().last();
                    &&& final(self).source().produced() == old(self).source().produced().push(input)
                    &&& D::obeys_history() && P::obeys_scaling() ==> {
                        &&& final(self).driver().injected() == old(self).driver().injected().push(
                            host_pen_frame(
                                input,
                                old(self).scaler().scaled(input.x, input.y),
                                old(self).orientation(),
                                old(self).calibration(),
                                old(self).screen_origin(),
                            ),
                        )
                        &&& final(self).driver().attempted() == old(self).driver().attempted().push(
                            host_pen_frame(
                                input,
                                old(self).scaler().scaled(input.x, input.y),
                                old(self).orientation(),
                                old(self).calibration(),
                                old(self).screen_origin(),
                            ),
                        )
                    }
                },
                Ok(false) => {
                    &&& final(self).source().produced() == old(self).source().produced()
                    &&& final(self).driver() == old(self).driver()
                },
                Err(PenRuntimeError::Source(_)) => {
                    &&& final(self).source().produced() == old(self).source().produced()
                    &&& final(self).driver() == old(self).driver()
                },
                Err(PenRuntimeError::Driver(_)) => {
                    let input = final(self).source().produced().last();
                    &&& final(self).source().produced() == old(self).source().produced().push(input)
                    &&& D::obeys_history() ==> final(self).driver().injected() == old(
                        self,
                    ).driver().injected()
                    &&& D::obeys_history() && P::obeys_scaling() ==> final(self).driver().attempted()
                        == old(self).driver().attempted().push(
                        host_pen_frame(
                            input,
                            old(self).scaler().scaled(input.x, input.y),
                            old(self).orientation(),
                            old(self).calibration(),
                            old(self).screen_origin(),
                        ),
                    )
                },
            },
            old(self).source().ended() ==> stepped matches Ok(false),
            final(self).source().ended() == (old(self).source().ended() || stepped matches Ok(
                false,
            )),
            final(self).source().failure() == match stepped {
                Err(PenRuntimeError::Source(error)) => Some(error),
                _ => None,
            },
            final(self).source().intact() == (old(self).source().intact() && !(
            stepped matches Err(PenRuntimeError::Source(_)))),
    {
        let input = match self.source.next_pen() {
            Ok(Some(input)) => input,
            Ok(None) => {
                return Ok(false);
            },
            Err(error) => {
                return Err(PenRuntimeError::Source(error));
            },
        };
        let (x, y) = self.scaler.scale(input.x, input.y);
        let pressure = normalize_u32(input.pressure, self.calibration.pressure_max, 1_024);
        let (tilt_x, tilt_y) = transform_tilt(
            input.tilt_x,
            input.tilt_y,
            self.orientation,
            self.calibration.tilt_max,
        );
        let rotation = match (input.rotation, self.calibration.rotation_max) {
            (Some(rotation), Some(maximum)) => Some(
                transform_rotation(normalize_u32(rotation, maximum, 359), self.orientation),
            ),
            _ => None,
        };
        let frame = PenInput {
            x: x.wrapping_add(self.screen_origin.0),
            y: y.wrapping_add(self.screen_origin.1),
            pressure,
            tilt_x,
            tilt_y,
            rotation,
            phase: input.phase,
            position_changed: input.position_changed,
        };
        match self.driver.inject_pen(frame) {
            Ok(()) => Ok(true),
            Err(error) => Err(PenRuntimeError::Driver(error)),
        }
    }
}


/// Whether a frame leaves the pen touching the surface.
pub open spec fn ends_in_contact(phase: PenPhase) -> bool {
    phase == PenPhase::Down || phase == PenPhase::Contact
}

/// Whether a frame finds the pen touching the surface.
pub open spec fn starts_in_contact(phase: PenPhase) -> bool {
    phase == PenPhase::Contact || phase == PenPhase::Up
}

/// Frame `i` starts as frame `i - 1` ended.
pub open spec fn follows_previous(frames: Seq<PenInput>, i: int) -> bool {
    starts_in_contact(frames[i].phase) == ends_in_contact(frames[i - 1].phase)
}

/// The phases of a frame sequence chain: the first frame starts lifted and
/// each frame starts as the one before it ended.
pub open spec fn phases_chain(frames: Seq<PenInput>) -> bool {
    &&& frames.len() > 0 ==> !starts_in_contact(frames[0].phase)
    &&& forall|i: int| 0 < i < frames.len() ==> #[trigger] follows_previous(frames, i)
}

proof fn lemma_step_contact(pressure_threshold: i32, state: PenState, event: EvdevEvent)
    ensures
        ({
            let step = pen_step(pressure_threshold, state, event);
            &&& step.1 matches Some(frame) ==> starts_in_contact(frame.phase) == state.contacting
                && ends_in_contact(frame.phase) == step.0.contacting
            &&& step.1 is None ==> step.0.contacting == state.contacting
        }),
{
}

proof fn lemma_finish_contact(pressure_threshold: i32, state: PenState)
    ensures
        ({
            let last = pen_finish(pressure_threshold, state);
            &&& last.1 matches Some(frame) ==> starts_in_contact(frame.phase) == state.contacting
                && ends_in_contact(frame.phase) == last.0.contacting
            &&& last.1 is None ==> last.0.contacting == state.contacting
        }),
{
}

proof fn lemma_chain_push(frames: Seq<PenInput>, frame: PenInput)
    requires
        phases_chain(frames),
        frames.len() > 0 ==> starts_in_contact(frame.phase) == ends_in_contact(frames.last().phase),
        frames.len() == 0 ==> !starts_in_contact(frame.phase),
    ensures
        phases_chain(frames.push(frame)),
{
    let pushed = frames.push(frame);
    assert forall|i: int| 0 < i < pushed.len() implies #[trigger] follows_previous(pushed, i) by {
        if i < frames.len() {
            assert(follows_previous(frames, i));
        }
    }
}

proof fn lemma_pen_run_contact(pressure_threshold: i32, events: Seq<EvdevEvent>)
    ensures
        ({
            let run = pen_run(pressure_threshold, events);
            &&& phases_chain(run.1)
            &&& run.1.len() > 0 ==> run.0.contacting == ends_in_contact(run.1.last().phase)
            &&& run.1.len() == 0 ==> !run.0.contacting
        }),
    decreases events.len(),
{
    if events.len() > 0 {
        lemma_pen_run_contact(pressure_threshold, events.drop_last());
        let before = pen_run(pressure_threshold, events.drop_last());
        lemma_step_contact(pressure_threshold, before.0, events.last());
        let step = pen_step(pressure_threshold, before.0, events.last());
        if let Some(frame) = step.1 {
            lemma_chain_push(before.1, frame);
        }
    }
}

/// Pen phases chain across frames: a frame starts touching exactly when the
/// frame before it ended touching, and the first frame starts lifted; this
/// holds for every stream, also once it has ended.
pub proof fn lemma_pen_phases_chain(pressure_threshold: i32, events: Seq<EvdevEvent>)
    ensures
        phases_chain(pen_run(pressure_threshold, events).1),
        phases_chain(pen_run_to_end(pressure_threshold, events).1),
{
    lemma_pen_run_contact(pressure_threshold, events);
    let run = pen_run(pressure_threshold, events);
    lemma_finish_contact(pressure_threshold, run.0);
    if let Some(frame) = pen_finish(pressure_threshold, run.0).1 {
        lemma_chain_push(run.1, frame);
    }
}

} // verus!
