use vstd::prelude::*;

use crate::invalid_input;
use crate::pen::{PenInput, PenPhase};

verus! {

/// What a synthetic pen injector remembers between frames: whether the
/// pointer's lifetime has started, and whether the last injected packet left
/// the pen in contact.
#[derive(Clone, Copy, Debug, PartialEq, Eq, Structural)]
pub struct PenInjectorState {
    pub started: bool,
    pub contacting: bool,
}

/// The injector before any packet.
pub fn initial_injector_state() -> (state: PenInjectorState)
    ensures
        state == (PenInjectorState { started: false, contacting: false }),
{
    PenInjectorState { started: false, contacting: false }
}

/// Hover and contact frames are updates, which may be coalesced; the others
/// change the contact and are always injected.
pub open spec fn coalesces(phase: PenPhase, elapsed: Option<u128>, update_interval: u128) -> bool {
    &&& (phase == PenPhase::Hover || phase == PenPhase::Contact)
    &&& elapsed matches Some(elapsed) && elapsed < update_interval
}

/// Whether a hover or contact frame comes too soon after the last injected
/// update to be worth injecting; other phases are always injected. Times are
/// in nanoseconds.
pub fn should_coalesce_update(phase: PenPhase, elapsed: Option<u128>, update_interval: u128) -> (coalesce: bool)
    ensures
        coalesce == coalesces(phase, elapsed, update_interval),
{
    let updating = match phase {
        PenPhase::Hover | PenPhase::Contact => true,
        _ => false,
    };
    updating && match elapsed {
        Some(elapsed) => elapsed < update_interval,
        None => false,
    }
}

/// The update interval, in nanoseconds, for an interval given in whole
/// milliseconds; only 1 to 20 milliseconds are accepted.
pub fn update_interval_nanos(update_interval_ms: u64) -> (nanos: std::io::Result<u128>)
    ensures
        nanos is Ok <==> 1 <= update_interval_ms <= 20,
        nanos matches Ok(nanos) ==> nanos == update_interval_ms * 1_000_000,
{
    if 1 <= update_interval_ms && update_interval_ms <= 20 {
        Ok(update_interval_ms as u128 * 1_000_000)
    } else {
        Err(invalid_input("Windows pen update interval must be between 1 and 20 milliseconds"))
    }
}

/// The frame with another phase and no pressure.
pub open spec fn lifted(input: PenInput, phase: PenPhase) -> PenInput {
    PenInput {
        x: input.x,
        y: input.y,
        pressure: 0,
        tilt_x: input.tilt_x,
        tilt_y: input.tilt_y,
        rotation: input.rotation,
        phase,
        position_changed: input.position_changed,
    }
}

/// The frame with another phase.
pub open spec fn with_phase(input: PenInput, phase: PenPhase) -> PenInput {
    PenInput {
        x: input.x,
        y: input.y,
        pressure: input.pressure,
        tilt_x: input.tilt_x,
        tilt_y: input.tilt_y,
        rotation: input.rotation,
        phase,
        position_changed: input.position_changed,
    }
}

/// The packets injected for one frame, each with whether it opens the
/// pointer's lifetime:
/// - the first frame is preceded by a hover that opens the lifetime (and a
///   first hover frame is that hover alone);
/// - a hover that finds the pen in contact is preceded by a lift;
/// - a contact frame that finds the pen lifted goes down instead;
/// - an update that comes too soon (`coalesces`) is dropped;
/// - a lift is followed by a hover, so that the next contact goes down from
///   a hover.
pub open spec fn spec_injection_plan(
    state: PenInjectorState,
    input: PenInput,
    elapsed: Option<u128>,
    update_interval: u128,
) -> Seq<(PenInput, bool)> {
    if !state.started && input.phase == PenPhase::Hover {
        seq![(lifted(input, PenPhase::Hover), true)]
    } else {
        let lead: Seq<(PenInput, bool)> = if !state.started {
            seq![(lifted(input, PenPhase::Hover), true)]
        } else if state.contacting && input.phase == PenPhase::Hover {
            seq![(lifted(input, PenPhase::Up), false)]
        } else {
            Seq::empty()
        };
        let contacting = state.started && state.contacting && input.phase != PenPhase::Hover;
        let main = if !contacting && input.phase == PenPhase::Contact {
            with_phase(input, PenPhase::Down)
        } else {
            input
        };
        if coalesces(main.phase, elapsed, update_interval) {
            lead
        } else if main.phase == PenPhase::Up {
            lead + seq![(main, false), (lifted(main, PenPhase::Hover), false)]
        } else {
            lead + seq![(main, false)]
        }
    }
}

fn lift(input: PenInput, phase: PenPhase) -> (frame: PenInput)
    ensures
        frame == lifted(input, phase),
{
    PenInput { pressure: 0, phase, ..input }
}

/// The packets to inject, in order, for one pen frame; `elapsed` is the time
/// since the last injected update, measured before the frame.
pub fn injection_plan(
    state: PenInjectorState,
    input: PenInput,
    elapsed: Option<u128>,
    update_interval: u128,
) -> (plan: Vec<(PenInput, bool)>)
    ensures
        plan@ == spec_injection_plan(state, input, elapsed, update_interval),
{
    let mut plan: Vec<(PenInput, bool)> = Vec::new();
    if !state.started {
        plan.push((lift(input, PenPhase::Hover), true));
        if input.phase == PenPhase::Hover {
            return plan;
        }
    } else if state.contacting && input.phase == PenPhase::Hover {
        plan.push((lift(input, PenPhase::Up), false));
    }
    let contacting = state.started && state.contacting && input.phase != PenPhase::Hover;
    let main = if !contacting && input.phase == PenPhase::Contact {
        PenInput { phase: PenPhase::Down, ..input }
    } else {
        input
    };
    if should_coalesce_update(main.phase, elapsed, update_interval) {
        return plan;
    }
    plan.push((main, false));
    if main.phase == PenPhase::Up {
        plan.push((lift(main, PenPhase::Hover), false));
    }
    plan
}

/// The injector once a packet of the given phase went through.
pub open spec fn spec_after_injection(phase: PenPhase) -> PenInjectorState {
    PenInjectorState {
        started: true,
        contacting: phase == PenPhase::Down || phase == PenPhase::Contact,
    }
}

pub fn after_injection(phase: PenPhase) -> (state: PenInjectorState)
    ensures
        state == spec_after_injection(phase),
{
    PenInjectorState {
        started: true,
        contacting: match phase {
            PenPhase::Down | PenPhase::Contact => true,
            _ => false,
        },
    }
}

/// Whether injecting a packet of this phase restarts the update interval.
pub fn refreshes_update_clock(phase: PenPhase) -> (refreshes: bool)
    ensures
        refreshes == (phase == PenPhase::Hover || phase == PenPhase::Contact),
{
    match phase {
        PenPhase::Hover | PenPhase::Contact => true,
        _ => false,
    }
}

/// The frame that lifts the pen when the injector closes: a lift at the last
/// injected position when the pen is in contact.
pub fn closing_frame(state: PenInjectorState, last_input: Option<PenInput>) -> (frame: Option<
    PenInput,
>)
    ensures
        frame == match last_input {
            Some(last) => if state.contacting {
                Some(lifted(last, PenPhase::Up))
            } else {
                None
            },
            None => None,
        },
{
    match last_input {
        Some(last) => if state.contacting {
            Some(lift(last, PenPhase::Up))
        } else {
            None
        },
        None => None,
    }
}

/// The pointer flags of a synthetic pen packet.
#[derive(Clone, Copy, Debug, PartialEq, Eq, Structural)]
pub struct PointerFlags {
    /// The packet opens the pointer's lifetime.
    pub new: bool,
    pub in_range: bool,
    pub in_contact: bool,
    pub down: bool,
    pub update: bool,
    pub up: bool,
}

/// Which optional pen values a synthetic pen packet carries.
#[derive(Clone, Copy, Debug, PartialEq, Eq, Structural)]
pub struct PenMask {
    pub pressure: bool,
    pub rotation: bool,
    pub tilt_x: bool,
    pub tilt_y: bool,
}

/// The content of one synthetic pen packet: position, flags, mask and the
/// pen values (absent ones as 0).
#[derive(Clone, Copy, Debug, PartialEq, Eq, Structural)]
pub struct PenPacket {
    pub x: i32,
    pub y: i32,
    pub flags: PointerFlags,
    pub mask: PenMask,
    pub pressure: u32,
    pub rotation: u32,
    pub tilt_x: i32,
    pub tilt_y: i32,
}

/// The flags each phase sets: hovering updates, going down goes down in
/// contact, contact updates in contact, lifting goes up; every packet is in
/// range, and the first opens the lifetime.
pub open spec fn packet_flags(phase: PenPhase, first: bool) -> PointerFlags {
    PointerFlags {
        new: first,
        in_range: true,
        in_contact: phase == PenPhase::Down || phase == PenPhase::Contact,
        down: phase == PenPhase::Down,
        update: phase == PenPhase::Hover || phase == PenPhase::Contact,
        up: phase == PenPhase::Up,
    }
}

pub open spec fn value_or_zero(value: Option<i32>) -> i32 {
    match value {
        Some(value) => value,
        None => 0,
    }
}

/// The packet that injects a frame.
pub open spec fn spec_pen_packet(input: PenInput, first: bool) -> PenPacket {
    PenPacket {
        x: input.x,
        y: input.y,
        flags: packet_flags(input.phase, first),
        mask: PenMask {
            pressure: true,
            rotation: input.rotation is Some,
            tilt_x: input.tilt_x is Some,
            tilt_y: input.tilt_y is Some,
        },
        pressure: input.pressure,
        rotation: match input.rotation {
            Some(rotation) => rotation,
            None => 0,
        },
        tilt_x: value_or_zero(input.tilt_x),
        tilt_y: value_or_zero(input.tilt_y),
    }
}

/// The packet that injects a frame; `first` opens the pointer's lifetime.
pub fn pen_packet(input: PenInput, first: bool) -> (packet: PenPacket)
    ensures
        packet == spec_pen_packet(input, first),
{
    let (in_contact, down, update, up) = match input.phase {
        PenPhase::Hover => (false, false, true, false),
        PenPhase::Down => (true, true, false, false),
        PenPhase::Contact => (true, false, true, false),
        PenPhase::Up => (false, false, false, true),
    };
    PenPacket {
        x: input.x,
        y: input.y,
        flags: PointerFlags { new: first, in_range: true, in_contact, down, update, up },
        mask: PenMask {
            pressure: true,
            rotation: input.rotation.is_some(),
            tilt_x: input.tilt_x.is_some(),
            tilt_y: input.tilt_y.is_some(),
        },
        pressure: input.pressure,
        rotation: match input.rotation {
            Some(rotation) => rotation,
            None => 0,
        },
        tilt_x: match input.tilt_x {
            Some(tilt) => tilt,
            None => 0,
        },
        tilt_y: match input.tilt_y {
            Some(tilt) => tilt,
            None => 0,
        },
    }
}

/// The packet that ends the pointer's lifetime at the last position: an
/// update out of range, with no pen values.
pub fn out_of_range_packet(input: PenInput) -> (packet: PenPacket)
    ensures
        packet == (PenPacket {
            x: input.x,
            y: input.y,
            flags: PointerFlags {
                new: false,
                in_range: false,
                in_contact: false,
                down: false,
                update: true,
                up: false,
            },
            mask: PenMask { pressure: false, rotation: false, tilt_x: false, tilt_y: false },
            pressure: 0,
            rotation: 0,
            tilt_x: 0,
            tilt_y: 0,
        }),
{
    PenPacket {
        x: input.x,
        y: input.y,
        flags: PointerFlags {
            new: false,
            in_range: false,
            in_contact: false,
            down: false,
            update: true,
            up: false,
        },
        mask: PenMask { pressure: false, rotation: false, tilt_x: false, tilt_y: false },
        pressure: 0,
        rotation: 0,
        tilt_x: 0,
        tilt_y: 0,
    }
}

/// Each packet of a plan carries exactly one of the down, update and up
/// flags, and is in contact exactly when the pen touches after it.
pub proof fn lemma_packet_flags_match_contact(phase: PenPhase, first: bool)
    ensures
        ({
            let flags = packet_flags(phase, first);
            &&& (flags.down as int) + (flags.update as int) + (flags.up as int) == 1
            &&& flags.in_contact == spec_after_injection(phase).contacting
        }),
{
}

/// The injector's flags agree with the phase of the last injected packet,
/// and the injector never rests on a lift.
pub open spec fn injector_consistent(state: PenInjectorState, last: Option<PenPhase>) -> bool {
    &&& state.started <==> last is Some
    &&& state.contacting <==> (last == Some(PenPhase::Down) || last == Some(PenPhase::Contact))
    &&& last != Some(PenPhase::Up)
}

/// The injector after a whole plan went through.
pub open spec fn state_after(state: PenInjectorState, plan: Seq<(PenInput, bool)>) -> PenInjectorState {
    if plan.len() == 0 {
        state
    } else {
        spec_after_injection(plan.last().0.phase)
    }
}

/// The last injected phase after a whole plan went through.
pub open spec fn last_after(last: Option<PenPhase>, plan: Seq<(PenInput, bool)>) -> Option<PenPhase> {
    if plan.len() == 0 {
        last
    } else {
        Some(plan.last().0.phase)
    }
}

/// Packet `i` of a plan, injected after `last`, goes down only from a hover.
pub open spec fn down_from_hover(last: Option<PenPhase>, plan: Seq<(PenInput, bool)>, i: int) -> bool {
    plan[i].0.phase == PenPhase::Down ==> if i == 0 {
        last == Some(PenPhase::Hover)
    } else {
        plan[i - 1].0.phase == PenPhase::Hover
    }
}

/// Only the very first packet of a pointer's lifetime opens it.
pub proof fn lemma_only_first_packet_opens(
    state: PenInjectorState,
    input: PenInput,
    elapsed: Option<u128>,
    update_interval: u128,
)
    ensures
        ({
            let plan = spec_injection_plan(state, input, elapsed, update_interval);
            forall|i: int| 0 <= i < plan.len() ==> #[trigger] plan[i].1 == (i == 0 && !state.started)
        }),
        !state.started ==> spec_injection_plan(state, input, elapsed, update_interval).len() > 0,
{
}

/// Synthetic pen input goes down only from a hover, and the injector is left
/// consistent and never on a lift, for every frame that is not dropped as too
/// soon and that does not go down while the pen is already in contact.
pub proof fn lemma_down_follows_hover(
    state: PenInjectorState,
    last: Option<PenPhase>,
    input: PenInput,
    elapsed: Option<u128>,
    update_interval: u128,
)
    requires
        injector_consistent(state, last),
        input.phase == PenPhase::Down ==> !state.contacting,
        elapsed matches Some(elapsed) ==> elapsed >= update_interval,
    ensures
        ({
            let plan = spec_injection_plan(state, input, elapsed, update_interval);
            &&& forall|i: int| 0 <= i < plan.len() ==> #[trigger] down_from_hover(last, plan, i)
            &&& injector_consistent(state_after(state, plan), last_after(last, plan))
        }),
{
    let plan = spec_injection_plan(state, input, elapsed, update_interval);
    let hover = lifted(input, PenPhase::Hover);
    if !state.started {
        if input.phase != PenPhase::Hover {
            let main = if input.phase == PenPhase::Contact {
                with_phase(input, PenPhase::Down)
            } else {
                input
            };
            if main.phase == PenPhase::Up {
                assert(plan =~= seq![(hover, true), (main, false), (lifted(main, PenPhase::Hover), false)]);
            } else {
                assert(plan =~= seq![(hover, true), (main, false)]);
            }
        }
        assert forall|i: int| 0 <= i < plan.len() implies #[trigger] down_from_hover(last, plan, i) by {}
    } else if state.contacting && input.phase == PenPhase::Hover {
        assert(plan =~= seq![(lifted(input, PenPhase::Up), false), (input, false)]);
        assert forall|i: int| 0 <= i < plan.len() implies #[trigger] down_from_hover(last, plan, i) by {}
    } else {
        assert(state.contacting || last == Some(PenPhase::Hover));
        let main = if !state.contacting && input.phase == PenPhase::Contact {
            with_phase(input, PenPhase::Down)
        } else {
            input
        };
        if main.phase == PenPhase::Up {
            assert(plan =~= seq![(main, false), (lifted(main, PenPhase::Hover), false)]);
        } else {
            assert(plan =~= seq![(main, false)]);
        }
        assert forall|i: int| 0 <= i < plan.len() implies #[trigger] down_from_hover(last, plan, i) by {}
    }
}

} // verus!
