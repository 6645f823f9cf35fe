use vstd::prelude::*;
use vstd::string::StringExecFns;

use crate::text::{append_decimal, append_unsigned, decimal, trimmed, chars_of, find_first, parse_i32_chars, spec_parse_i32, trim, trim_bounds, first_index_of};

verus! {

#[derive(Clone, Copy, Debug, PartialEq, Eq, Structural)]
pub enum DriverKind {
    Auto,
    Enigo,
    Uinput,
    UinputTablet,
    WindowsPen,
}

#[derive(Clone, Debug, PartialEq, Eq)]
pub struct MonitorInfo {
    pub id: u32,
    pub label: String,
    pub x: i32,
    pub y: i32,
    pub width: i32,
    pub height: i32,
    pub is_primary: bool,
}

/// The backend an `Auto` choice stands for: uinput in a Linux Wayland
/// session, the pen driver on Windows, Enigo elsewhere; an explicit choice
/// stands for itself.
pub fn resolve_driver_kind(kind: DriverKind, linux_wayland_session: bool, windows_host: bool) -> (resolved: DriverKind)
    ensures
        resolved == match kind {
            DriverKind::Auto => if linux_wayland_session {
                DriverKind::Uinput
            } else if windows_host {
                DriverKind::WindowsPen
            } else {
                DriverKind::Enigo
            },
            _ => kind,
        },
{
    match kind {
        DriverKind::Auto => if linux_wayland_session {
            DriverKind::Uinput
        } else if windows_host {
            DriverKind::WindowsPen
        } else {
            DriverKind::Enigo
        },
        _ => kind,
    }
}

/// The backend to fall back to when the pen backend cannot be opened: Enigo
/// when the choice was automatic, none when the pen backend was asked for.
pub fn pen_fallback_kind(requested: DriverKind) -> (fallback: Option<DriverKind>)
    ensures
        fallback == if requested == DriverKind::Auto {
            Some(DriverKind::Enigo)
        } else {
            None
        },
{
    match requested {
        DriverKind::Auto => Some(DriverKind::Enigo),
        _ => None,
    }
}

/// What the monitor list reads of one attached display.
#[derive(Clone, Debug, PartialEq, Eq)]
pub struct DisplayDescription {
    pub id: u32,
    pub name: String,
    pub friendly_name: String,
    pub x: i32,
    pub y: i32,
    pub width: u32,
    pub height: u32,
    pub is_primary: bool,
}

/// The name a display is listed under: its friendly name, or its system
/// name when the friendly name is blank, trimmed either way.
pub open spec fn display_name(display: DisplayDescription) -> Seq<char> {
    if trim(display.friendly_name@).len() == 0 {
        trim(display.name@)
    } else {
        trim(display.friendly_name@)
    }
}

/// `"<position>: <name> - <width>x<height> at <x>,<y>"`, with ` (Primary)`
/// after the primary display; positions count from 1.
pub open spec fn monitor_label(index: int, display: DisplayDescription) -> Seq<char> {
    decimal(index + 1) + ": "@ + display_name(display) + " - "@ + decimal(display.width as int)
        + "x"@ + decimal(display.height as int) + " at "@ + decimal(display.x as int) + ","@
        + decimal(display.y as int) + if display.is_primary {
        " (Primary)"@
    } else {
        ""@
    }
}

/// `std::io::Error::new` with kind `NotFound` and the given message.
#[verifier::external_body]
fn not_found(message: &str) -> std::io::Error {
    std::io::Error::new(std::io::ErrorKind::NotFound, message)
}

/// `std::io::Error::other` with the given message.
#[verifier::external_body]
fn other_error(message: &str) -> std::io::Error {
    std::io::Error::other(message.to_owned())
}

/// The monitor entry for the display at `index` of the system's list; fails
/// when its size does not fit in `i32`.
pub fn monitor_info(index: usize, display: &DisplayDescription) -> (info: std::io::Result<
    MonitorInfo,
>)
    requires
        index < usize::MAX,
    ensures
        info is Err <==> display.width > i32::MAX || display.height > i32::MAX,
        info matches Ok(info) ==> {
            &&& info.id == display.id
            &&& info.label@ == monitor_label(index as int, *display)
            &&& info.x == display.x
            &&& info.y == display.y
            &&& info.width == display.width
            &&& info.height == display.height
            &&& info.is_primary == display.is_primary
        },
{
    if display.width > 2147483647u32 {
        return Err(other_error("display width exceeds i32"));
    }
    if display.height > 2147483647u32 {
        return Err(other_error("display height exceeds i32"));
    }
    let width = display.width as i32;
    let height = display.height as i32;
    let friendly = trimmed(display.friendly_name.as_str());
    let name = if friendly.unicode_len() == 0 {
        trimmed(display.name.as_str())
    } else {
        friendly
    };
    let mut label = String::new();
    append_unsigned(&mut label, index as u64 + 1);
    label.append(": ");
    label.append(name.as_str());
    label.append(" - ");
    append_unsigned(&mut label, display.width as u64);
    label.append("x");
    append_unsigned(&mut label, display.height as u64);
    label.append(" at ");
    append_decimal(&mut label, display.x as i64);
    label.append(",");
    append_decimal(&mut label, display.y as i64);
    if display.is_primary {
        label.append(" (Primary)");
    }
    proof {
        reveal_strlit("");
    }
    assert(name@ == display_name(*display));
    assert(label@ =~= monitor_label(index as int, *display));
    Ok(MonitorInfo {
        id: display.id,
        label,
        x: display.x,
        y: display.y,
        width,
        height,
        is_primary: display.is_primary,
    })
}

/// Whether a monitor is the one looked for: the one with ID `id` when
/// `by_id`, else a primary one.
pub open spec fn monitor_matches(monitor: MonitorInfo, by_id: bool, id: u32) -> bool {
    if by_id {
        monitor.id == id
    } else {
        monitor.is_primary
    }
}

/// The position of the first monitor looked for, or -1.
pub open spec fn first_matching(monitors: Seq<MonitorInfo>, by_id: bool, id: u32) -> int
    decreases monitors.len(),
{
    if monitors.len() == 0 {
        -1
    } else if monitor_matches(monitors[0], by_id, id) {
        0
    } else if first_matching(monitors.drop_first(), by_id, id) < 0 {
        -1
    } else {
        first_matching(monitors.drop_first(), by_id, id) + 1
    }
}

/// The position of the monitor to drive: the first with the requested ID;
/// with none requested, the first primary one, or else the first one; -1
/// when there is no such monitor.
pub open spec fn chosen_monitor(monitors: Seq<MonitorInfo>, monitor_id: Option<u32>) -> int {
    match monitor_id {
        Some(id) => first_matching(monitors, true, id),
        None => if first_matching(monitors, false, 0) >= 0 {
            first_matching(monitors, false, 0)
        } else if monitors.len() > 0 {
            0
        } else {
            -1
        },
    }
}

fn find_monitor(monitors: &[MonitorInfo], by_id: bool, id: u32) -> (index: Option<usize>)
    ensures
        match index {
            Some(i) => i < monitors@.len() && i == first_matching(monitors@, by_id, id),
            None => first_matching(monitors@, by_id, id) == -1,
        },
{
    let mut i = monitors.len();
    let mut found: Option<usize> = None;
    assert(monitors@.subrange(i as int, monitors@.len() as int).len() == 0);
    while i > 0
        invariant
            i <= monitors@.len(),
            match found {
                Some(k) => i <= k < monitors@.len() && k - i == first_matching(
                    monitors@.subrange(i as int, monitors@.len() as int),
                    by_id,
                    id,
                ),
                None => first_matching(monitors@.subrange(i as int, monitors@.len() as int), by_id, id)
                    == -1,
            },
        decreases i,
    {
        i = i - 1;
        assert(monitors@.subrange(i as int, monitors@.len() as int).drop_first() =~= monitors@.subrange(
            i + 1,
            monitors@.len() as int,
        ));
        let matches = if by_id {
            monitors[i].id == id
        } else {
            monitors[i].is_primary
        };
        if matches {
            found = Some(i);
        }
    }
    assert(monitors@.subrange(0, monitors@.len() as int) =~= monitors@);
    found
}

/// Picks the monitor to drive: the one with the requested ID, or else the
/// primary monitor, or else the first one.
pub fn choose_monitor(monitors: &[MonitorInfo], monitor_id: Option<u32>) -> (chosen:
    std::io::Result<&MonitorInfo>)
    ensures
        chosen is Err <==> chosen_monitor(monitors@, monitor_id) == -1,
        chosen matches Ok(monitor) ==> 0 <= chosen_monitor(monitors@, monitor_id) < monitors@.len()
            && *monitor == monitors@[chosen_monitor(monitors@, monitor_id)],
{
    match monitor_id {
        Some(id) => match find_monitor(monitors, true, id) {
            Some(i) => Ok(&monitors[i]),
            None => {
                let mut message = String::from_str("monitor ID ");
                append_decimal(&mut message, id as i64);
                message.append(" is not attached");
                Err(not_found(message.as_str()))
            },
        },
        None => match find_monitor(monitors, false, 0) {
            Some(i) => Ok(&monitors[i]),
            None => if monitors.len() > 0 {
                Ok(&monitors[0])
            } else {
                Err(other_error("no host displays found"))
            },
        },
    }
}

/// The smallest `x` (`by_x`) or `y` of the monitors, or 0 when there are none.
pub open spec fn min_coordinate(monitors: Seq<MonitorInfo>, by_x: bool) -> int
    decreases monitors.len(),
{
    if monitors.len() == 0 {
        0
    } else if monitors.len() == 1 {
        if by_x {
            monitors[0].x as int
        } else {
            monitors[0].y as int
        }
    } else {
        let rest = min_coordinate(monitors.drop_last(), by_x);
        let last = if by_x {
            monitors.last().x as int
        } else {
            monitors.last().y as int
        };
        if last < rest {
            last
        } else {
            rest
        }
    }
}

pub open spec fn saturating_sub_i32(a: int, b: int) -> int {
    if a - b > i32::MAX {
        i32::MAX as int
    } else if a - b < i32::MIN {
        i32::MIN as int
    } else {
        a - b
    }
}

fn saturating_sub(a: i32, b: i32) -> (difference: i32)
    ensures
        difference == saturating_sub_i32(a as int, b as int),
{
    let wide = a as i64 - b as i64;
    if wide > i32::MAX as i64 {
        i32::MAX
    } else if wide < i32::MIN as i64 {
        i32::MIN
    } else {
        wide as i32
    }
}

fn min_monitor_coordinate(monitors: &[MonitorInfo], by_x: bool) -> (minimum: i32)
    ensures
        minimum == min_coordinate(monitors@, by_x),
{
    let mut minimum: i32 = 0;
    let mut i: usize = 0;
    while i < monitors.len()
        invariant
            i <= monitors@.len(),
            minimum == min_coordinate(monitors@.take(i as int), by_x),
        decreases monitors@.len() - i,
    {
        let value = if by_x {
            monitors[i].x
        } else {
            monitors[i].y
        };
        assert(monitors@.take(i + 1).drop_last() =~= monitors@.take(i as int));
        if i == 0 || value < minimum {
            minimum = value;
        }
        i = i + 1;
    }
    assert(monitors@.take(monitors@.len() as int) =~= monitors@);
    minimum
}

/// A monitor's position, or its offset from the smallest coordinates of all
/// monitors (saturating) when injection works in a virtual screen.
pub open spec fn injection_origin_of(monitors: Seq<MonitorInfo>, monitor: MonitorInfo, virtual_screen: bool) -> (i32, i32) {
    if virtual_screen {
        (
            saturating_sub_i32(monitor.x as int, min_coordinate(monitors, true)) as i32,
            saturating_sub_i32(monitor.y as int, min_coordinate(monitors, false)) as i32,
        )
    } else {
        (monitor.x, monitor.y)
    }
}

proof fn lemma_min_coordinate_at_most(monitors: Seq<MonitorInfo>, by_x: bool, i: int)
    requires
        0 <= i < monitors.len(),
    ensures
        min_coordinate(monitors, by_x) <= if by_x {
            monitors[i].x as int
        } else {
            monitors[i].y as int
        },
    decreases monitors.len(),
{
    if monitors.len() > 1 && i < monitors.len() - 1 {
        lemma_min_coordinate_at_most(monitors.drop_last(), by_x, i);
    }
}

/// In a virtual screen spanning all monitors, every monitor's injection
/// origin lies right of and below the screen's top-left corner.
pub proof fn lemma_virtual_origins_are_non_negative(monitors: Seq<MonitorInfo>, i: int)
    requires
        0 <= i < monitors.len(),
    ensures
        injection_origin_of(monitors, monitors[i], true).0 >= 0,
        injection_origin_of(monitors, monitors[i], true).1 >= 0,
{
    lemma_min_coordinate_at_most(monitors, true, i);
    lemma_min_coordinate_at_most(monitors, false, i);
}

/// Where pointer injection puts a monitor's top-left corner: its own
/// position, or, on a host whose injection works in a virtual screen that
/// spans all monitors (Windows), its offset from that screen's top-left.
pub fn injection_origin(monitors: &[MonitorInfo], monitor: &MonitorInfo, virtual_screen: bool) -> (origin: (i32, i32))
    ensures
        origin == injection_origin_of(monitors@, *monitor, virtual_screen),
{
    if virtual_screen {
        let virtual_x = min_monitor_coordinate(monitors, true);
        let virtual_y = min_monitor_coordinate(monitors, false);
        (saturating_sub(monitor.x, virtual_x), saturating_sub(monitor.y, virtual_y))
    } else {
        (monitor.x, monitor.y)
    }
}

/// Where the host screen lies and how large it is.
#[derive(Clone, Copy, Debug, PartialEq, Eq, Structural)]
pub struct DisplayMetrics {
    pub x: i32,
    pub y: i32,
    pub width: i32,
    pub height: i32,
}

/// The screen to drive: with no monitor requested and a compositor-reported
/// size (Hyprland's focused monitor), that size at the origin; otherwise the
/// chosen monitor at its injection origin.
pub fn selected_display(
    monitors: &[MonitorInfo],
    monitor_id: Option<u32>,
    compositor_size: Option<(i32, i32)>,
    virtual_screen: bool,
) -> (metrics: std::io::Result<DisplayMetrics>)
    ensures
        monitor_id is None && compositor_size is Some ==> metrics == Ok::<DisplayMetrics, std::io::Error>(
            DisplayMetrics {
                x: 0,
                y: 0,
                width: compositor_size.unwrap().0,
                height: compositor_size.unwrap().1,
            },
        ),
        !(monitor_id is None && compositor_size is Some) ==> {
            &&& metrics is Err <==> chosen_monitor(monitors@, monitor_id) == -1
            &&& metrics matches Ok(metrics) ==> ({
                let monitor = monitors@[chosen_monitor(monitors@, monitor_id)];
                metrics == DisplayMetrics {
                    x: injection_origin_of(monitors@, monitor, virtual_screen).0,
                    y: injection_origin_of(monitors@, monitor, virtual_screen).1,
                    width: monitor.width,
                    height: monitor.height,
                }
            })
        },
{
    if monitor_id.is_none() {
        if let Some((width, height)) = compositor_size {
            return Ok(DisplayMetrics { x: 0, y: 0, width, height });
        }
    }
    let monitor = match choose_monitor(monitors, monitor_id) {
        Ok(monitor) => monitor,
        Err(error) => {
            return Err(error);
        },
    };
    let (x, y) = injection_origin(monitors, monitor, virtual_screen);
    Ok(DisplayMetrics { x, y, width: monitor.width, height: monitor.height })
}

/// The move from the last known position to `(x, y)`, which becomes the
/// last known position; the first position gives no move.
pub fn relative_delta(last_position: &mut Option<(i32, i32)>, x: i32, y: i32) -> (delta: Option<(i32, i32)>)
    requires
        *old(last_position) matches Some((last_x, last_y)) ==> i32::MIN <= x - last_x
            <= i32::MAX && i32::MIN <= y - last_y <= i32::MAX,
    ensures
        *final(last_position) == Some((x, y)),
        delta == match *old(last_position) {
            Some((last_x, last_y)) => Some(((x - last_x) as i32, (y - last_y) as i32)),
            None => None,
        },
{
    match *last_position {
        Some((last_x, last_y)) => {
            *last_position = Some((x, y));
            Some((x - last_x, y - last_y))
        },
        None => {
            *last_position = Some((x, y));
            None
        },
    }
}

pub open spec fn saturating_double(value: int) -> int {
    if 2 * value > i32::MAX {
        i32::MAX as int
    } else if 2 * value < i32::MIN {
        i32::MIN as int
    } else {
        2 * value
    }
}

/// A relative move that certainly reaches the top-left corner of a screen
/// of the given size: twice its size, up and to the left.
pub fn home_delta(screen_width: i32, screen_height: i32) -> (delta: (i32, i32))
    requires
        2 * screen_width > i32::MIN,
        2 * screen_height > i32::MIN,
    ensures
        delta == (-saturating_double(screen_width as int) as i32, -saturating_double(
            screen_height as int,
        ) as i32),
{
    let width: i64 = screen_width as i64 * 2;
    let height: i64 = screen_height as i64 * 2;
    let width: i32 = if width > i32::MAX as i64 {
        i32::MAX
    } else {
        width as i32
    };
    let height: i32 = if height > i32::MAX as i64 {
        i32::MAX
    } else {
        height as i32
    };
    (-width, -height)
}


/// Division truncating towards zero, as Rust's `/` on integers does.
pub open spec fn trunc_div(a: int, b: int) -> int {
    let magnitude = (if a >= 0 {
        a
    } else {
        -a
    }) / (if b >= 0 {
        b
    } else {
        -b
    });
    if (a >= 0) == (b > 0) || a == 0 {
        magnitude
    } else {
        -magnitude
    }
}

/// `delta * frame / frames` rounded towards zero, or `delta` when that does
/// not fit in 32 bits.
pub open spec fn spec_scale_chunk(delta: i32, frame: i32, frames: i32) -> int {
    let position = trunc_div(delta * frame, frames as int);
    if i32::MIN <= position <= i32::MAX {
        position
    } else {
        delta as int
    }
}

pub fn scale_chunk(delta: i32, frame: i32, frames: i32) -> (position: i32)
    requires
        frames != 0,
    ensures
        position == spec_scale_chunk(delta, frame, frames),
{
    assert(-0x4000_0000_0000_0000 <= delta as i64 * frame as i64 <= 0x4000_0000_0000_0000)
        by (nonlinear_arith)
        requires
            i32::MIN <= delta <= i32::MAX,
            i32::MIN <= frame <= i32::MAX,
    ;
    let numerator: i64 = delta as i64 * frame as i64;
    let denominator: i64 = frames as i64;
    let magnitude_n: i64 = if numerator >= 0 {
        numerator
    } else {
        -numerator
    };
    let magnitude_d: i64 = if denominator >= 0 {
        denominator
    } else {
        -denominator
    };
    let magnitude: i64 = magnitude_n / magnitude_d;
    let quotient: i64 = if (numerator >= 0) == (denominator > 0) || numerator == 0 {
        magnitude
    } else {
        -magnitude
    };
    if quotient >= i32::MIN as i64 && quotient <= i32::MAX as i64 {
        quotient as i32
    } else {
        delta
    }
}

/// Largest step of one motion chunk along an axis.
pub const MAX_CHUNK: i32 = 64;

/// How many chunks a motion is split into: enough that no axis moves more
/// than `MAX_CHUNK` per chunk, and at least one.
pub open spec fn chunk_count(delta_x: i32, delta_y: i32) -> int {
    let abs_x: int = if delta_x >= 0 {
        delta_x as int
    } else {
        -delta_x
    };
    let abs_y: int = if delta_y >= 0 {
        delta_y as int
    } else {
        -delta_y
    };
    let largest = if abs_x > abs_y {
        abs_x
    } else {
        abs_y
    };
    let frames = (largest + 63) / 64;
    if frames > 1 {
        frames
    } else {
        1
    }
}

/// The position reached along one axis after `frame` of `frames` chunks.
pub open spec fn chunk_position(delta: i32, frame: int, frames: int) -> int {
    trunc_div(delta * frame, frames)
}

/// The `k`-th chunk of a motion.
pub open spec fn motion_chunk(delta_x: i32, delta_y: i32, k: int) -> (int, int) {
    let frames = chunk_count(delta_x, delta_y);
    (
        chunk_position(delta_x, k + 1, frames) - chunk_position(delta_x, k, frames),
        chunk_position(delta_y, k + 1, frames) - chunk_position(delta_y, k, frames),
    )
}

proof fn lemma_chunk_position_bounds(delta: i32, frame: int, frames: int)
    requires
        0 <= frame <= frames,
        frames > 0,
    ensures
        delta >= 0 ==> 0 <= chunk_position(delta, frame, frames) <= delta,
        delta < 0 ==> delta <= chunk_position(delta, frame, frames) <= 0,
        frame == frames ==> chunk_position(delta, frame, frames) == delta,
        frame == 0 ==> chunk_position(delta, frame, frames) == 0,
{
    let d = delta as int;
    if d >= 0 {
        assert(0 <= d * frame <= d * frames) by (nonlinear_arith)
            requires
                0 <= frame <= frames,
                d >= 0,
        ;
        assert((d * frame) / frames <= d) by (nonlinear_arith)
            requires
                0 <= d * frame <= d * frames,
                frames > 0,
        ;
        assert(0 <= (d * frame) / frames) by (nonlinear_arith)
            requires
                0 <= d * frame,
                frames > 0,
        ;
        if frame == frames {
            assert((d * frames) / frames == d) by (nonlinear_arith)
                requires
                    frames > 0,
            ;
        }
    } else {
        let m = -d;
        assert(0 <= m * frame <= m * frames) by (nonlinear_arith)
            requires
                0 <= frame <= frames,
                m >= 0,
        ;
        assert((m * frame) / frames <= m) by (nonlinear_arith)
            requires
                0 <= m * frame <= m * frames,
                frames > 0,
        ;
        assert(0 <= (m * frame) / frames) by (nonlinear_arith)
            requires
                0 <= m * frame,
                frames > 0,
        ;
        assert(d * frame == -(m * frame)) by (nonlinear_arith)
            requires
                m == -d,
        ;
        if frame == frames {
            assert((m * frames) / frames == m) by (nonlinear_arith)
                requires
                    frames > 0,
            ;
        }
        if frame == 0 {
            assert(d * frame == 0) by (nonlinear_arith)
                requires
                    frame == 0,
            ;
        }
    }
}

/// Consecutive positions never move more than `MAX_CHUNK` apart, and never
/// against the direction of the motion.
proof fn lemma_chunk_step_bound(delta: i32, frame: int, frames: int)
    requires
        0 <= frame < frames,
        (if delta >= 0 {
            delta as int
        } else {
            -delta
        }) <= 64 * frames,
    ensures
        delta >= 0 ==> 0 <= chunk_position(delta, frame + 1, frames) - chunk_position(
            delta,
            frame,
            frames,
        ) <= 64,
        delta < 0 ==> -64 <= chunk_position(delta, frame + 1, frames) - chunk_position(
            delta,
            frame,
            frames,
        ) <= 0,
{
    let d = delta as int;
    let m: int = if d >= 0 {
        d
    } else {
        -d
    };
    let a = m * (frame + 1);
    let b = m * frame;
    assert(a == b + m && b >= 0) by (nonlinear_arith)
        requires
            a == m * (frame + 1),
            b == m * frame,
            m >= 0,
            frame >= 0,
    ;
    assert(0 <= a / frames - b / frames <= 64) by (nonlinear_arith)
        requires
            a == b + m,
            b >= 0,
            0 <= m <= 64 * frames,
            frames > 0,
    {
        assert(b / frames <= a / frames);
        assert((a / frames) * frames <= a);
        assert((b / frames) * frames > b - frames);
        assert((a / frames - b / frames) * frames < m + frames);
    }
    assert(d * (frame + 1) == if d >= 0 {
        a
    } else {
        -a
    }) by (nonlinear_arith)
        requires
            a == m * (frame + 1),
            m == (if d >= 0 {
                d
            } else {
                -d
            }),
    ;
    assert(d * frame == if d >= 0 {
        b
    } else {
        -b
    }) by (nonlinear_arith)
        requires
            b == m * frame,
            m == (if d >= 0 {
                d
            } else {
                -d
            }),
    ;
}

/// The sum of the first components (`first == true`) or of the second ones.
pub open spec fn sum_component(chunks: Seq<(i32, i32)>, first: bool) -> int
    decreases chunks.len(),
{
    if chunks.len() == 0 {
        0
    } else {
        sum_component(chunks.drop_last(), first) + if first {
            chunks.last().0 as int
        } else {
            chunks.last().1 as int
        }
    }
}

/// Splits a relative motion into chunks of at most `MAX_CHUNK` per axis
/// that add up to the whole motion.
pub fn motion_chunks(delta_x: i32, delta_y: i32) -> (chunks: Vec<(i32, i32)>)
    requires
        delta_x != i32::MIN,
        delta_y != i32::MIN,
        delta_x + 63 <= i32::MAX,
        -delta_x + 63 <= i32::MAX,
        delta_y + 63 <= i32::MAX,
        -delta_y + 63 <= i32::MAX,
    ensures
        chunks@.len() == chunk_count(delta_x, delta_y),
        forall|k: int|
            #![trigger chunks@[k]]
            0 <= k < chunks@.len() ==> (chunks@[k].0 as int, chunks@[k].1 as int)
                == motion_chunk(delta_x, delta_y, k),
        sum_component(chunks@, true) == delta_x,
        sum_component(chunks@, false) == delta_y,
        forall|k: int|
            0 <= k < chunks@.len() ==> -MAX_CHUNK <= #[trigger] chunks@[k].0 <= MAX_CHUNK && -MAX_CHUNK
                <= chunks@[k].1 <= MAX_CHUNK,
        delta_x == 0 ==> forall|k: int| 0 <= k < chunks@.len() ==> #[trigger] chunks@[k].0 == 0,
        delta_y == 0 ==> forall|k: int| 0 <= k < chunks@.len() ==> #[trigger] chunks@[k].1 == 0,
{
    let abs_x: i32 = if delta_x >= 0 {
        delta_x
    } else {
        -delta_x
    };
    let abs_y: i32 = if delta_y >= 0 {
        delta_y
    } else {
        -delta_y
    };
    let largest = if abs_x > abs_y {
        abs_x
    } else {
        abs_y
    };
    let frames_needed = (largest + (MAX_CHUNK - 1)) / MAX_CHUNK;
    let frames = if frames_needed > 1 {
        frames_needed
    } else {
        1
    };
    let ghost n = frames as int;
    assert(n == chunk_count(delta_x, delta_y));
    assert(abs_x <= 64 * n && abs_y <= 64 * n) by (nonlinear_arith)
        requires
            largest >= abs_x,
            largest >= abs_y,
            frames_needed == (largest + 63) / 64,
            n >= frames_needed,
            largest >= 0,
    ;
    let mut chunks: Vec<(i32, i32)> = Vec::new();
    let mut previous_x: i32 = 0;
    let mut previous_y: i32 = 0;
    let mut frame: i32 = 1;
    proof {
        lemma_chunk_position_bounds(delta_x, 0, n);
        lemma_chunk_position_bounds(delta_y, 0, n);
    }
    while frame <= frames
        invariant
            n == frames as int,
            n == chunk_count(delta_x, delta_y),
            n >= 1,
            1 <= frame <= frames + 1,
            frames <= i32::MAX,
            abs_x == (if delta_x >= 0 { delta_x as int } else { -delta_x }),
            abs_y == (if delta_y >= 0 { delta_y as int } else { -delta_y }),
            abs_x <= 64 * n,
            abs_y <= 64 * n,
            chunks@.len() == frame - 1,
            previous_x == chunk_position(delta_x, frame - 1, n),
            previous_y == chunk_position(delta_y, frame - 1, n),
            sum_component(chunks@, true) == previous_x,
            sum_component(chunks@, false) == previous_y,
            forall|k: int|
                #![trigger chunks@[k]]
                0 <= k < chunks@.len() ==> (chunks@[k].0 as int, chunks@[k].1 as int)
                    == motion_chunk(delta_x, delta_y, k),
        decreases frames + 1 - frame,
    {
        proof {
            lemma_chunk_position_bounds(delta_x, frame as int, n);
            lemma_chunk_position_bounds(delta_y, frame as int, n);
            lemma_chunk_step_bound(delta_x, (frame - 1) as int, n);
            lemma_chunk_step_bound(delta_y, (frame - 1) as int, n);
        }
        let current_x = scale_chunk(delta_x, frame, frames);
        let current_y = scale_chunk(delta_y, frame, frames);
        let ghost before = chunks@;
        chunks.push((current_x - previous_x, current_y - previous_y));
        assert(chunks@.drop_last() =~= before);
        previous_x = current_x;
        previous_y = current_y;
        frame = frame + 1;
    }
    proof {
        lemma_chunk_position_bounds(delta_x, n, n);
        lemma_chunk_position_bounds(delta_y, n, n);
        assert forall|k: int| 0 <= k < chunks@.len() implies -MAX_CHUNK <= #[trigger] chunks@[k].0
            <= MAX_CHUNK && -MAX_CHUNK <= chunks@[k].1 <= MAX_CHUNK by {
            assert((chunks@[k].0 as int, chunks@[k].1 as int) == motion_chunk(delta_x, delta_y, k));
            lemma_chunk_step_bound(delta_x, k, n);
            lemma_chunk_step_bound(delta_y, k, n);
        }
        assert forall|k: int| 0 <= k < chunks@.len() && delta_x == 0 implies #[trigger] chunks@[k].0
            == 0 by {
            assert((chunks@[k].0 as int, chunks@[k].1 as int) == motion_chunk(delta_x, delta_y, k));
            lemma_chunk_step_bound(delta_x, k, n);
        }
        assert forall|k: int| 0 <= k < chunks@.len() && delta_y == 0 implies #[trigger] chunks@[k].1
            == 0 by {
            assert((chunks@[k].0 as int, chunks@[k].1 as int) == motion_chunk(delta_x, delta_y, k));
            lemma_chunk_step_bound(delta_y, k, n);
        }
    }
    chunks
}


/// How a `hyprctl cursorpos` reply reads: two integers separated by the
/// first comma, with whitespace allowed around each and around the whole.
pub open spec fn spec_parse_cursor_position(text: Seq<char>) -> Option<(i32, i32)> {
    let trimmed = trim(text);
    let comma = first_index_of(trimmed, ',');
    if comma < 0 {
        None
    } else {
        match (
            spec_parse_i32(trim(trimmed.subrange(0, comma))),
            spec_parse_i32(trim(trimmed.subrange(comma + 1, trimmed.len() as int))),
        ) {
            (Some(x), Some(y)) => Some((x, y)),
            _ => None,
        }
    }
}

pub fn parse_cursor_position(position: &str) -> (parsed: Option<(i32, i32)>)
    ensures
        parsed == spec_parse_cursor_position(position@),
{
    let chars = chars_of(position);
    let (start, end) = trim_bounds(&chars, 0, chars.len());
    assert(chars@.subrange(0, chars@.len() as int) =~= position@);
    let ghost trimmed = chars@.subrange(start as int, end as int);
    let comma = match find_first(&chars, start, end, ',') {
        Some(comma) => comma,
        None => {
            return None;
        },
    };
    let (x_start, x_end) = trim_bounds(&chars, start, comma);
    assert(chars@.subrange(start as int, comma as int) =~= trimmed.subrange(0, comma - start));
    let x = match parse_i32_chars(&chars, x_start, x_end) {
        Some(x) => x,
        None => {
            return None;
        },
    };
    let (y_start, y_end) = trim_bounds(&chars, comma + 1, end);
    assert(chars@.subrange(comma + 1, end as int) =~= trimmed.subrange(
        comma - start + 1,
        trimmed.len() as int,
    ));
    let y = match parse_i32_chars(&chars, y_start, y_end) {
        Some(y) => y,
        None => {
            return None;
        },
    };
    Some((x, y))
}

} // verus!
