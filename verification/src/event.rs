use vstd::prelude::*;

verus! {

/// Size in bytes of one tablet event record.
pub const RAW_EVENT_SIZE: usize = 16;

pub const EV_SYN: u16 = 0x00;
pub const EV_KEY: u16 = 0x01;
pub const EV_ABS: u16 = 0x03;
pub const SYN_REPORT: u16 = 0x00;
pub const ABS_X: u16 = 0x00;
pub const ABS_Y: u16 = 0x01;
pub const ABS_PRESSURE: u16 = 0x18;
pub const ABS_TILT_X: u16 = 0x1a;
pub const ABS_TILT_Y: u16 = 0x1b;
pub const BTN_TOOL_PEN: u16 = 0x140;
pub const BTN_TOOL_RUBBER: u16 = 0x141;

/// One decoded Evdev record as the tablet writes it: 32-bit seconds and
/// microseconds, then type, code and value.
#[derive(Clone, Copy, Debug, PartialEq, Eq, Structural)]
pub struct EvdevEvent {
    pub seconds: u32,
    pub microseconds: u32,
    pub event_type: u16,
    pub code: u16,
    pub value: i32,
}

impl Default for EvdevEvent {
    fn default() -> (event: Self)
        ensures
            event == (EvdevEvent { seconds: 0, microseconds: 0, event_type: 0, code: 0, value: 0 }),
    {
        EvdevEvent { seconds: 0, microseconds: 0, event_type: 0, code: 0, value: 0 }
    }
}

/// The unsigned little-endian number held by `bytes[at..at + n]`.
pub open spec fn le_unsigned(bytes: Seq<u8>, at: int, n: nat) -> int
    decreases n,
{
    if n == 0 {
        0
    } else {
        bytes[at] + 256 * le_unsigned(bytes, at + 1, (n - 1) as nat)
    }
}

/// The two's-complement reading of a 32-bit unsigned number.
pub open spec fn twos_complement_32(u: int) -> int {
    if u < 0x8000_0000 {
        u
    } else {
        u - 0x1_0000_0000
    }
}

/// The event that a 16-byte little-endian record denotes.
pub open spec fn decode_record(bytes: Seq<u8>) -> EvdevEvent {
    EvdevEvent {
        seconds: le_unsigned(bytes, 0, 4) as u32,
        microseconds: le_unsigned(bytes, 4, 4) as u32,
        event_type: le_unsigned(bytes, 8, 2) as u16,
        code: le_unsigned(bytes, 10, 2) as u16,
        value: twos_complement_32(le_unsigned(bytes, 12, 4)) as i32,
    }
}

proof fn lemma_le_unsigned_2(bytes: Seq<u8>, at: int)
    ensures
        le_unsigned(bytes, at, 2) == bytes[at] + 256 * bytes[at + 1],
{
    reveal_with_fuel(le_unsigned, 3);
}

proof fn lemma_le_unsigned_4(bytes: Seq<u8>, at: int)
    ensures
        le_unsigned(bytes, at, 4) == bytes[at] + 256 * bytes[at + 1] + 65536 * bytes[at + 2]
            + 16777216 * bytes[at + 3],
{
    reveal_with_fuel(le_unsigned, 5);
}

fn le_u16(b0: u8, b1: u8) -> (r: u16)
    ensures
        r == b0 + 256 * b1,
{
    let r = (b0 as u16) | ((b1 as u16) << 8u16);
    assert(r == b0 + 256 * b1) by (bit_vector)
        requires
            r == (b0 as u16) | ((b1 as u16) << 8u16),
    ;
    r
}

fn le_u32(b0: u8, b1: u8, b2: u8, b3: u8) -> (r: u32)
    ensures
        r == b0 + 256 * b1 + 65536 * b2 + 16777216 * b3,
{
    let r = (b0 as u32) | ((b1 as u32) << 8u32) | ((b2 as u32) << 16u32) | ((b3 as u32) << 24u32);
    assert(r == b0 + 256 * b1 + 65536 * b2 + 16777216 * b3) by (bit_vector)
        requires
            r == (b0 as u32) | ((b1 as u32) << 8u32) | ((b2 as u32) << 16u32) | ((b3 as u32)
                << 24u32),
    ;
    r
}

fn u32_as_i32(u: u32) -> (r: i32)
    ensures
        r == twos_complement_32(u as int),
{
    let r = u as i32;
    assert(r == (if u < 0x8000_0000 { u as int } else { u - 0x1_0000_0000 })) by (bit_vector)
        requires
            r == u as i32,
    ;
    r
}

impl EvdevEvent {
    /// Decodes one record of the tablet's fixed 16-byte little-endian layout.
    pub fn from_le_bytes(bytes: [u8; RAW_EVENT_SIZE]) -> (event: Self)
        ensures
            event == decode_record(bytes@),
    {
        proof {
            lemma_le_unsigned_4(bytes@, 0);
            lemma_le_unsigned_4(bytes@, 4);
            lemma_le_unsigned_2(bytes@, 8);
            lemma_le_unsigned_2(bytes@, 10);
            lemma_le_unsigned_4(bytes@, 12);
        }
        EvdevEvent {
            seconds: le_u32(bytes[0], bytes[1], bytes[2], bytes[3]),
            microseconds: le_u32(bytes[4], bytes[5], bytes[6], bytes[7]),
            event_type: le_u16(bytes[8], bytes[9]),
            code: le_u16(bytes[10], bytes[11]),
            value: u32_as_i32(le_u32(bytes[12], bytes[13], bytes[14], bytes[15])),
        }
    }
}


/// The 16-byte little-endian record that stores `event`.
pub open spec fn encode_record(event: EvdevEvent) -> Seq<u8> {
    let v = event.value as u32;
    seq![
        (event.seconds & 0xff) as u8, ((event.seconds >> 8u32) & 0xff) as u8,
        ((event.seconds >> 16u32) & 0xff) as u8, (event.seconds >> 24u32) as u8,
        (event.microseconds & 0xff) as u8, ((event.microseconds >> 8u32) & 0xff) as u8,
        ((event.microseconds >> 16u32) & 0xff) as u8, (event.microseconds >> 24u32) as u8,
        (event.event_type & 0xff) as u8, (event.event_type >> 8u16) as u8,
        (event.code & 0xff) as u8, (event.code >> 8u16) as u8,
        (v & 0xff) as u8, ((v >> 8u32) & 0xff) as u8, ((v >> 16u32) & 0xff) as u8,
        (v >> 24u32) as u8,
    ]
}

proof fn lemma_u32_bytes(u: u32)
    ensures
        (u & 0xff) as u8 + 256 * ((u >> 8u32) & 0xff) as u8 + 65536 * ((u >> 16u32) & 0xff) as u8
            + 16777216 * (u >> 24u32) as u8 == u,
{
    assert((u & 0xff) as u8 + 256 * ((u >> 8u32) & 0xff) as u8 + 65536 * ((u >> 16u32)
        & 0xff) as u8 + 16777216 * (u >> 24u32) as u8 == u) by (bit_vector);
}

proof fn lemma_u16_bytes(u: u16)
    ensures
        (u & 0xff) as u8 + 256 * (u >> 8u16) as u8 == u,
{
    assert((u & 0xff) as u8 + 256 * (u >> 8u16) as u8 == u) by (bit_vector);
}

proof fn lemma_u32_from_bytes(b0: u8, b1: u8, b2: u8, b3: u8)
    ensures
        ({
            let s = (b0 + 256 * b1 + 65536 * b2 + 16777216 * b3) as u32;
            &&& (s & 0xff) as u8 == b0
            &&& ((s >> 8u32) & 0xff) as u8 == b1
            &&& ((s >> 16u32) & 0xff) as u8 == b2
            &&& (s >> 24u32) as u8 == b3
        }),
{
    let s = (b0 + 256 * b1 + 65536 * b2 + 16777216 * b3) as u32;
    assert((s & 0xff) as u8 == b0 && ((s >> 8u32) & 0xff) as u8 == b1 && ((s >> 16u32) & 0xff)
        as u8 == b2 && (s >> 24u32) as u8 == b3) by (bit_vector)
        requires
            s == (b0 + 256 * b1 + 65536 * b2 + 16777216 * b3) as u32,
    ;
}

proof fn lemma_u16_from_bytes(b0: u8, b1: u8)
    ensures
        ({
            let t = (b0 + 256 * b1) as u16;
            (t & 0xff) as u8 == b0 && (t >> 8u16) as u8 == b1
        }),
{
    let t = (b0 + 256 * b1) as u16;
    assert((t & 0xff) as u8 == b0 && (t >> 8u16) as u8 == b1) by (bit_vector)
        requires
            t == (b0 + 256 * b1) as u16,
    ;
}

proof fn lemma_i32_from_bytes(b0: u8, b1: u8, b2: u8, b3: u8)
    ensures
        ({
            let w = (twos_complement_32(b0 + 256 * b1 + 65536 * b2 + 16777216 * b3) as i32) as u32;
            &&& (w & 0xff) as u8 == b0
            &&& ((w >> 8u32) & 0xff) as u8 == b1
            &&& ((w >> 16u32) & 0xff) as u8 == b2
            &&& (w >> 24u32) as u8 == b3
        }),
{
    let u = b0 + 256 * b1 + 65536 * b2 + 16777216 * b3;
    let dv = twos_complement_32(u) as i32;
    let w = dv as u32;
    assert((w & 0xff) as u8 == b0 && ((w >> 8u32) & 0xff) as u8 == b1 && ((w >> 16u32) & 0xff)
        as u8 == b2 && (w >> 24u32) as u8 == b3) by (bit_vector)
        requires
            w == dv as u32,
            dv == (if b0 + 256 * b1 + 65536 * b2 + 16777216 * b3 < 0x8000_0000 {
                b0 + 256 * b1 + 65536 * b2 + 16777216 * b3
            } else {
                b0 + 256 * b1 + 65536 * b2 + 16777216 * b3 - 0x1_0000_0000
            }) as i32,
    ;
}

/// Every event has exactly one record: decoding the record that stores an
/// event gives the event back, and a record is the one its event is stored in.
pub proof fn lemma_record_layout_is_a_bijection(event: EvdevEvent, bytes: Seq<u8>)
    requires
        bytes.len() == RAW_EVENT_SIZE,
    ensures
        encode_record(event).len() == RAW_EVENT_SIZE,
        decode_record(encode_record(event)) == event,
        encode_record(decode_record(bytes)) == bytes,
{
    let e = encode_record(event);
    lemma_le_unsigned_4(e, 0);
    lemma_le_unsigned_4(e, 4);
    lemma_le_unsigned_2(e, 8);
    lemma_le_unsigned_2(e, 10);
    lemma_le_unsigned_4(e, 12);
    lemma_u32_bytes(event.seconds);
    lemma_u32_bytes(event.microseconds);
    lemma_u16_bytes(event.event_type);
    lemma_u16_bytes(event.code);
    let v = event.value as u32;
    lemma_u32_bytes(v);
    let value = event.value;
    assert(twos_complement_32(v as int) == value) by {
        assert((if (value as u32) < 0x8000_0000 { (value as u32) as int } else { (value as u32)
            - 0x1_0000_0000 }) == value) by (bit_vector);
    }
    lemma_le_unsigned_4(bytes, 0);
    lemma_le_unsigned_4(bytes, 4);
    lemma_le_unsigned_2(bytes, 8);
    lemma_le_unsigned_2(bytes, 10);
    lemma_le_unsigned_4(bytes, 12);
    let d = decode_record(bytes);
    lemma_u32_from_bytes(bytes[0], bytes[1], bytes[2], bytes[3]);
    lemma_u32_from_bytes(bytes[4], bytes[5], bytes[6], bytes[7]);
    lemma_u16_from_bytes(bytes[8], bytes[9]);
    lemma_u16_from_bytes(bytes[10], bytes[11]);
    lemma_i32_from_bytes(bytes[12], bytes[13], bytes[14], bytes[15]);
    assert(encode_record(d) =~= bytes);
}


/// The name printed for an event type, or the empty string.
pub open spec fn spec_event_type_name(event_type: u16) -> Seq<char> {
    if event_type == EV_SYN {
        "EV_SYN"@
    } else if event_type == EV_KEY {
        "EV_KEY"@
    } else if event_type == EV_ABS {
        "EV_ABS"@
    } else {
        ""@
    }
}

/// The name printed for an event code of a given type, or the empty string.
pub open spec fn spec_event_code_name(event_type: u16, code: u16) -> Seq<char> {
    if event_type == EV_SYN && code == SYN_REPORT {
        "SYN_REPORT"@
    } else if event_type == EV_KEY && code == BTN_TOOL_PEN {
        "BTN_TOOL_PEN"@
    } else if event_type == EV_KEY && code == BTN_TOOL_RUBBER {
        "BTN_TOOL_RUBBER"@
    } else if event_type == EV_ABS && code == ABS_X {
        "ABS_X"@
    } else if event_type == EV_ABS && code == ABS_Y {
        "ABS_Y"@
    } else if event_type == EV_ABS && code == ABS_PRESSURE {
        "ABS_PRESSURE"@
    } else if event_type == EV_ABS && code == ABS_TILT_X {
        "ABS_TILT_X"@
    } else if event_type == EV_ABS && code == ABS_TILT_Y {
        "ABS_TILT_Y"@
    } else {
        ""@
    }
}

pub fn event_type_name(event_type: u16) -> (name: &'static str)
    ensures
        name@ == spec_event_type_name(event_type),
{
    if event_type == EV_SYN {
        "EV_SYN"
    } else if event_type == EV_KEY {
        "EV_KEY"
    } else if event_type == EV_ABS {
        "EV_ABS"
    } else {
        ""
    }
}

pub fn event_code_name(event_type: u16, code: u16) -> (name: &'static str)
    ensures
        name@ == spec_event_code_name(event_type, code),
{
    if event_type == EV_SYN && code == SYN_REPORT {
        "SYN_REPORT"
    } else if event_type == EV_KEY && code == BTN_TOOL_PEN {
        "BTN_TOOL_PEN"
    } else if event_type == EV_KEY && code == BTN_TOOL_RUBBER {
        "BTN_TOOL_RUBBER"
    } else if event_type == EV_ABS && code == ABS_X {
        "ABS_X"
    } else if event_type == EV_ABS && code == ABS_Y {
        "ABS_Y"
    } else if event_type == EV_ABS && code == ABS_PRESSURE {
        "ABS_PRESSURE"
    } else if event_type == EV_ABS && code == ABS_TILT_X {
        "ABS_TILT_X"
    } else if event_type == EV_ABS && code == ABS_TILT_Y {
        "ABS_TILT_Y"
    } else {
        ""
    }
}

/// A pull-based stream of decoded events.
///
/// `produced` is the history of events handed out so far. A source hands
/// out at most `u64::MAX` events; an error or the end of the stream leaves
/// the history as it was.
pub trait EventSource {
    /// Well-formedness of the source's internal state; a source that does
    /// not state it promises nothing.
    open spec fn valid(&self) -> bool {
        false
    }

    open spec fn produced(&self) -> Seq<EvdevEvent> {
        Seq::empty()
    }

    /// Whether the stream has ended; once it has, every pull reports the end.
    open spec fn ended(&self) -> bool {
        false
    }

    /// The error of the last pull, if it failed.
    open spec fn failure(&self) -> Option<std::io::Error> {
        None
    }

    /// Whether no pull has failed yet.
    open spec fn intact(&self) -> bool {
        true
    }

    /// The raw bytes the events are decoded from, as they stood when the
    /// source was made; pulling never changes them.
    open spec fn origin(&self) -> Seq<u8> {
        Seq::empty()
    }

    /// Returns the next decoded event, or `None` at a clean end of stream.
    fn next_event(&mut self) -> (next: std::io::Result<Option<EvdevEvent>>)
        requires
            old(self).valid(),
        ensures
            final(self).valid(),
            final(self).produced().len() <= u64::MAX,
            match next {
                Ok(Some(event)) => {
                    &&& old(self).produced().len() < u64::MAX
                    &&& final(self).produced() == old(self).produced().push(event)
                },
                _ => final(self).produced() == old(self).produced(),
            },
            old(self).ended() ==> next matches Ok(None),
            final(self).ended() == (old(self).ended() || next matches Ok(None)),
            final(self).failure() == match next {
                Err(error) => Some(error),
                _ => None,
            },
            final(self).intact() == (old(self).intact() && !(next is Err)),
            final(self).origin() == old(self).origin(),
    ;
}

/// The events of `bytes` read as consecutive 16-byte records; a trailing
/// partial record is not an event.
pub open spec fn decode_records(bytes: Seq<u8>) -> Seq<EvdevEvent> {
    Seq::new(
        bytes.len() / 16,
        |i: int| decode_record(bytes.subrange(16 * i, 16 * i + 16)),
    )
}

proof fn lemma_decode_records_push(bytes: Seq<u8>, record: Seq<u8>)
    requires
        bytes.len() % 16 == 0,
        record.len() == 16,
    ensures
        decode_records(bytes + record) == decode_records(bytes).push(decode_record(record)),
{
    let all = bytes + record;
    assert(all.len() / 16 == bytes.len() / 16 + 1);
    assert forall|i: int| 0 <= i < bytes.len() / 16 implies #[trigger] all.subrange(16 * i, 16 * i
        + 16) =~= bytes.subrange(16 * i, 16 * i + 16) by {}
    let n: int = bytes.len() as int / 16;
    assert(all.subrange(16 * n, 16 * n + 16) =~= record);
    assert(decode_records(all) =~= decode_records(bytes).push(decode_record(record)));
}

/// A source of raw bytes, read the way `std::io::Read` reads: `read_bytes`
/// fills a prefix of the buffer (no bytes at all means the end of the
/// stream) and `read_exact_bytes` fills all of it or fails.
///
/// A reader that models its stream (`obeys_stream`) states what it delivers:
/// `remaining` is the rest of the stream, every successful read hands out
/// its next bytes in order, and a read that gives nothing for a non-empty
/// buffer comes only at the end of the stream.
pub trait ByteReader {
    open spec fn obeys_stream() -> bool {
        false
    }

    open spec fn remaining(&self) -> Seq<u8> {
        Seq::empty()
    }

    fn read_bytes(&mut self, buffer: &mut [u8]) -> (read: std::io::Result<usize>)
        ensures
            final(buffer)@.len() == old(buffer)@.len(),
            read matches Ok(n) ==> n <= old(buffer)@.len(),
            Self::obeys_stream() ==> (read matches Ok(n) ==> {
                &&& n <= old(self).remaining().len()
                &&& final(buffer)@.take(n as int) == old(self).remaining().take(n as int)
                &&& final(self).remaining() == old(self).remaining().skip(n as int)
                &&& (n == 0 && old(buffer)@.len() > 0 ==> old(self).remaining().len() == 0)
            }),
    ;

    fn read_exact_bytes(&mut self, buffer: &mut [u8]) -> (read: std::io::Result<()>)
        ensures
            final(buffer)@.len() == old(buffer)@.len(),
            Self::obeys_stream() ==> (read is Ok ==> {
                &&& old(buffer)@.len() <= old(self).remaining().len()
                &&& final(buffer)@ == old(self).remaining().take(old(buffer)@.len() as int)
                &&& final(self).remaining() == old(self).remaining().skip(old(buffer)@.len() as int)
            }),
    ;
}

/// The bytes of an in-memory cursor from its position to the end of its
/// data: what reading it delivers.
pub uninterp spec fn cursor_unread(cursor: std::io::Cursor<Vec<u8>>) -> Seq<u8>;

/// `std::io::Read::read` on an in-memory cursor: fills the front of
/// `buffer` with the next `n` unread bytes (at most the buffer's length) and
/// moves past them; std documents that a count of 0 for a non-empty buffer
/// means the end of the data.
#[verifier::external_body]
fn read_cursor(cursor: &mut std::io::Cursor<Vec<u8>>, buffer: &mut [u8]) -> (read: std::io::Result<
    usize,
>)
    ensures
        final(buffer)@.len() == old(buffer)@.len(),
        read matches Ok(n) ==> {
            &&& n <= old(buffer)@.len()
            &&& n <= cursor_unread(*old(cursor)).len()
            &&& final(buffer)@.take(n as int) == cursor_unread(*old(cursor)).take(n as int)
            &&& cursor_unread(*final(cursor)) == cursor_unread(*old(cursor)).skip(n as int)
            &&& (n == 0 && old(buffer)@.len() > 0 ==> cursor_unread(*old(cursor)).len() == 0)
        },
{
    std::io::Read::read(cursor, buffer)
}

/// `std::io::Read::read_exact` on an in-memory cursor: on success the
/// buffer holds the next unread bytes and the cursor moves past them.
#[verifier::external_body]
fn read_exact_cursor(cursor: &mut std::io::Cursor<Vec<u8>>, buffer: &mut [u8]) -> (read:
    std::io::Result<()>)
    ensures
        final(buffer)@.len() == old(buffer)@.len(),
        read is Ok ==> {
            &&& old(buffer)@.len() <= cursor_unread(*old(cursor)).len()
            &&& final(buffer)@ == cursor_unread(*old(cursor)).take(old(buffer)@.len() as int)
            &&& cursor_unread(*final(cursor)) == cursor_unread(*old(cursor)).skip(
                old(buffer)@.len() as int,
            )
        },
{
    std::io::Read::read_exact(cursor, buffer)
}

/// `std::io::Read::read`: reads some bytes into the front of `buffer` and
/// says how many; std documents that the count is at most the buffer's length.
#[verifier::external_body]
fn read_from<R: std::io::Read>(reader: &mut R, buffer: &mut [u8]) -> (read: std::io::Result<usize>)
    ensures
        final(buffer)@.len() == old(buffer)@.len(),
        read matches Ok(n) ==> n <= old(buffer)@.len(),
{
    reader.read(buffer)
}

/// `std::io::Read::read_exact`: fills all of `buffer` or fails.
#[verifier::external_body]
fn read_exact_from<R: std::io::Read>(reader: &mut R, buffer: &mut [u8]) -> (read:
    std::io::Result<()>)
    ensures
        final(buffer)@.len() == old(buffer)@.len(),
{
    reader.read_exact(buffer)
}

impl ByteReader for std::io::Cursor<Vec<u8>> {
    open spec fn obeys_stream() -> bool {
        true
    }

    open spec fn remaining(&self) -> Seq<u8> {
        cursor_unread(*self)
    }

    fn read_bytes(&mut self, buffer: &mut [u8]) -> (read: std::io::Result<usize>) {
        read_cursor(self, buffer)
    }

    fn read_exact_bytes(&mut self, buffer: &mut [u8]) -> (read: std::io::Result<()>) {
        read_exact_cursor(self, buffer)
    }
}

impl<const N: usize> ByteReader for std::io::Cursor<[u8; N]> {
    fn read_bytes(&mut self, buffer: &mut [u8]) -> (read: std::io::Result<usize>) {
        read_from(self, buffer)
    }

    fn read_exact_bytes(&mut self, buffer: &mut [u8]) -> (read: std::io::Result<()>) {
        read_exact_from(self, buffer)
    }
}

/// Decodes events from any byte reader.
///
/// The first read of a record that returns no bytes is a clean end of
/// stream; a record that starts but cannot be completed is an error. A
/// stream that has already yielded `u64::MAX` events is treated as ended.
pub struct ReaderEventSource<R> {
    reader: R,
    finished: bool,
    count: u64,
    history: Ghost<Seq<EvdevEvent>>,
    bytes: Ghost<Seq<u8>>,
    failure: Ghost<Option<std::io::Error>>,
    broken: Ghost<bool>,
    stream: Ghost<Seq<u8>>,
}

impl<R> ReaderEventSource<R> {
    /// The history matches the bytes read and is counted by `count`.
    pub closed spec fn well_formed(&self) -> bool {
        &&& self.history@.len() == self.count
        &&& self.bytes@.len() == 16 * self.count
        &&& self.history@ == decode_records(self.bytes@)
    }

    /// The reader this source decodes.
    pub closed spec fn reader(&self) -> R {
        self.reader
    }

    /// Whether the stream has ended.
    pub closed spec fn finished(&self) -> bool {
        self.finished
    }

    /// The events decoded so far.
    pub closed spec fn decoded(&self) -> Seq<EvdevEvent> {
        self.history@
    }

    /// The bytes of all complete records read so far.
    pub closed spec fn bytes_read(&self) -> Seq<u8> {
        self.bytes@
    }

    /// The error of the last pull, if it failed.
    pub closed spec fn last_failure(&self) -> Option<std::io::Error> {
        self.failure@
    }

    /// Whether no pull has failed yet.
    pub closed spec fn never_failed(&self) -> bool {
        !self.broken@
    }

    /// The reader's stream as it was when the source was made.
    pub closed spec fn stream(&self) -> Seq<u8> {
        self.stream@
    }

    pub fn into_inner(self) -> (reader: R)
        ensures
            reader == self.reader(),
    {
        self.reader
    }
}

impl<R: ByteReader> ReaderEventSource<R> {
    pub fn new(reader: R) -> (source: Self)
        ensures
            source.reader() == reader,
            !source.finished(),
            source.bytes_read() == Seq::<u8>::empty(),
            source.well_formed(),
            source.decoded() == Seq::<EvdevEvent>::empty(),
            source.never_failed(),
            source.last_failure() is None,
            source.stream() == reader.remaining(),
            source.valid(),
    {
        let source = ReaderEventSource {
            reader,
            finished: false,
            count: 0,
            history: Ghost(Seq::empty()),
            bytes: Ghost(Seq::empty()),
            failure: Ghost(None),
            broken: Ghost(false),
            stream: Ghost(reader.remaining()),
        };
        assert(decode_records(Seq::<u8>::empty()) =~= Seq::<EvdevEvent>::empty());
        assert(Seq::<u8>::empty() + reader.remaining() =~= reader.remaining());
        source
    }
}

/// A well-formed reader source has decoded exactly the records of the
/// bytes it has read, sixteen bytes to an event.
pub proof fn lemma_reader_decodes_bytes_read<R>(source: &ReaderEventSource<R>)
    requires
        source.well_formed(),
    ensures
        source.decoded() == decode_records(source.bytes_read()),
        source.bytes_read().len() == 16 * source.decoded().len(),
{
}

/// The first `count` whole records of a byte stream.
pub open spec fn record_prefix(stream: Seq<u8>, count: nat) -> Seq<u8> {
    stream.take(16 * count as int)
}

/// The bytes a reader source reads from `stream` when it runs to its end:
/// all of them, or the first `u64::MAX` records when the stream holds more.
pub open spec fn delivered_records(stream: Seq<u8>) -> Seq<u8> {
    if stream.len() <= 16 * u64::MAX {
        stream
    } else {
        record_prefix(stream, u64::MAX as nat)
    }
}

/// While no pull has failed, a source over a reader that models its stream
/// has read whole records from the front of that stream.
pub proof fn lemma_reader_reads_a_prefix<R: ByteReader>(source: &ReaderEventSource<R>)
    requires
        source.valid(),
        R::obeys_stream(),
        source.never_failed(),
    ensures
        16 * source.decoded().len() <= source.stream().len(),
        source.bytes_read() == record_prefix(source.stream(), source.decoded().len()),
{
    assert(source.stream().take(source.bytes_read().len() as int) =~= source.bytes_read());
}

/// A source over a reader that models its stream, that has ended and never
/// failed, has read the whole records of its stream and nothing is left
/// over.
pub proof fn lemma_ended_reader_read_everything<R: ByteReader>(source: &ReaderEventSource<R>)
    requires
        source.valid(),
        R::obeys_stream(),
        source.never_failed(),
        source.finished(),
    ensures
        source.bytes_read() == delivered_records(source.stream()),
        delivered_records(source.stream()).len() % 16 == 0,
{
    lemma_reader_reads_a_prefix(source);
    let stream = source.stream();
    let bytes = source.bytes_read();
    if source.reader().remaining().len() == 0 {
        assert(bytes + source.reader().remaining() =~= bytes);
        assert(stream == bytes);
    } else {
        assert(source.decoded().len() == u64::MAX);
        if stream.len() <= 16 * u64::MAX {
            assert(stream =~= bytes);
        }
    }
}

/// The record made of the first `length` bytes of `first` followed by `rest`.
fn join_record(first: &Vec<u8>, length: usize, rest: &Vec<u8>) -> (record: [u8; RAW_EVENT_SIZE])
    requires
        length <= RAW_EVENT_SIZE <= first@.len(),
        rest@.len() == RAW_EVENT_SIZE - length,
    ensures
        record@ == first@.take(length as int) + rest@,
{
    let mut joined: Vec<u8> = Vec::new();
    let mut i: usize = 0;
    while i < RAW_EVENT_SIZE
        invariant
            length <= RAW_EVENT_SIZE <= first@.len(),
            rest@.len() == RAW_EVENT_SIZE - length,
            i <= RAW_EVENT_SIZE,
            joined@ == (first@.take(length as int) + rest@).take(i as int),
        decreases RAW_EVENT_SIZE - i,
    {
        if i < length {
            joined.push(first[i]);
        } else {
            joined.push(rest[i - length]);
        }
        i = i + 1;
        assert(joined@ =~= (first@.take(length as int) + rest@).take(i as int));
    }
    let record = [
        joined[0], joined[1], joined[2], joined[3], joined[4], joined[5], joined[6], joined[7],
        joined[8], joined[9], joined[10], joined[11], joined[12], joined[13], joined[14], joined[15],
    ];
    assert(record@ =~= first@.take(length as int) + rest@);
    record
}

impl<R: ByteReader> EventSource for ReaderEventSource<R> {
    /// Well-formed, and for a reader that models its stream, while no pull
    /// has failed: the complete records read so far and the unread rest make
    /// up the stream, and an ended source has read all of it (or the most
    /// events a source hands out).
    open spec fn valid(&self) -> bool {
        &&& self.well_formed()
        &&& R::obeys_stream() && self.never_failed() ==> self.bytes_read() + self.reader().remaining()
            == self.stream()
        &&& R::obeys_stream() && self.never_failed() && self.finished() ==> (
        self.reader().remaining().len() == 0 || self.decoded().len() == u64::MAX)
    }

    open spec fn produced(&self) -> Seq<EvdevEvent> {
        self.decoded()
    }

    open spec fn ended(&self) -> bool {
        self.finished()
    }

    open spec fn failure(&self) -> Option<std::io::Error> {
        self.last_failure()
    }

    open spec fn intact(&self) -> bool {
        self.never_failed()
    }

    open spec fn origin(&self) -> Seq<u8> {
        self.stream()
    }

    fn next_event(&mut self) -> (next: std::io::Result<Option<EvdevEvent>>)
        ensures
            final(self).produced() == decode_records(final(self).bytes_read()),
            final(self).stream() == old(self).stream(),
            next matches Ok(Some(event)) ==> final(self).bytes_read() == old(self).bytes_read()
                + encode_record(event),
            !(next matches Ok(Some(_))) ==> final(self).bytes_read() == old(self).bytes_read(),
            old(self).finished() || old(self).decoded().len() == u64::MAX ==> (next matches Ok(None)
                && final(self).reader() == old(self).reader()),
            R::obeys_stream() ==> match next {
                Ok(Some(event)) => {
                    &&& old(self).reader().remaining().len() >= 16
                    &&& encode_record(event) == old(self).reader().remaining().take(16)
                    &&& final(self).reader().remaining() == old(self).reader().remaining().skip(16)
                },
                Ok(None) => {
                    &&& final(self).reader().remaining() == old(self).reader().remaining()
                    &&& (old(self).finished() || old(self).decoded().len() == u64::MAX
                        || old(self).reader().remaining().len() == 0)
                },
                Err(_) => true,
            },
    {
        if self.finished || self.count == u64::MAX {
            self.finished = true;
            self.failure = Ghost(None);
            return Ok(None);
        }
        let mut first: Vec<u8> = vec![0u8; RAW_EVENT_SIZE];
        let ghost unread = self.reader.remaining();
        let read = self.reader.read_bytes(first.as_mut_slice());
        match read {
            Ok(0) => {
                self.finished = true;
                self.failure = Ghost(None);
                proof {
                    if R::obeys_stream() {
                        assert(unread.skip(0) =~= unread);
                        assert(self.bytes@ + self.reader.remaining() =~= self.bytes@ + unread);
                    }
                }
                Ok(None)
            },
            Ok(length) => {
                let missing: usize = RAW_EVENT_SIZE - length;
                let mut rest: Vec<u8> = vec![0u8; missing];
                let ghost after_first = self.reader.remaining();
                match self.reader.read_exact_bytes(rest.as_mut_slice()) {
                    Ok(()) => {},
                    Err(error) => {
                        self.failure = Ghost(Some(error));
                        self.broken = Ghost(true);
                        return Err(error);
                    },
                }
                let bytes = join_record(&first, length, &rest);
                let event = EvdevEvent::from_le_bytes(bytes);
                proof {
                    lemma_decode_records_push(self.bytes@, bytes@);
                    lemma_record_layout_is_a_bijection(event, bytes@);
                    if R::obeys_stream() {
                        assert(bytes@ =~= unread.take(16));
                        assert(self.reader.remaining() =~= unread.skip(16));
                        assert(self.bytes@ + bytes@ + unread.skip(16) =~= self.bytes@ + unread);
                    }
                }
                self.history = Ghost(self.history@.push(event));
                self.bytes = Ghost(self.bytes@ + bytes@);
                self.count = self.count + 1;
                self.failure = Ghost(None);
                Ok(Some(event))
            },
            Err(error) => {
                self.failure = Ghost(Some(error));
                self.broken = Ghost(true);
                Err(error)
            },
        }
    }
}

/// The events of `events`, in order, whose type is (`keep == true`) or is
/// not (`keep == false`) one of `types`.
pub open spec fn keep_types(events: Seq<EvdevEvent>, types: Seq<u16>, keep: bool) -> Seq<
    EvdevEvent,
>
    decreases events.len(),
{
    if events.len() == 0 {
        Seq::empty()
    } else {
        let rest = keep_types(events.drop_last(), types, keep);
        if types.contains(events.last().event_type) == keep {
            rest.push(events.last())
        } else {
            rest
        }
    }
}

proof fn lemma_keep_types_push(events: Seq<EvdevEvent>, event: EvdevEvent, types: Seq<u16>, keep: bool)
    ensures
        keep_types(events.push(event), types, keep) == if types.contains(event.event_type) == keep {
            keep_types(events, types, keep).push(event)
        } else {
            keep_types(events, types, keep)
        },
{
    assert(events.push(event).drop_last() =~= events);
}

proof fn lemma_keep_types_len(events: Seq<EvdevEvent>, types: Seq<u16>, keep: bool)
    ensures
        keep_types(events, types, keep).len() <= events.len(),
    decreases events.len(),
{
    if events.len() > 0 {
        lemma_keep_types_len(events.drop_last(), types, keep);
    }
}

/// Pulling events from a source appends them to its skipped suffix.
proof fn lemma_skip_push(events: Seq<EvdevEvent>, start: int, event: EvdevEvent)
    requires
        0 <= start <= events.len(),
    ensures
        events.push(event).skip(start) == events.skip(start).push(event),
{
    assert(events.push(event).skip(start) =~= events.skip(start).push(event));
}

/// Keeping events by type distributes over concatenation: what is kept
/// from a stream read in two parts is what is kept from each part.
pub proof fn lemma_keep_types_concat(
    first: Seq<EvdevEvent>,
    second: Seq<EvdevEvent>,
    types: Seq<u16>,
    keep: bool,
)
    ensures
        keep_types(first + second, types, keep) == keep_types(first, types, keep) + keep_types(
            second,
            types,
            keep,
        ),
    decreases second.len(),
{
    if second.len() == 0 {
        assert(first + second =~= first);
        assert(keep_types(first, types, keep) + keep_types(second, types, keep) =~= keep_types(
            first,
            types,
            keep,
        ));
    } else {
        let last = second.last();
        lemma_keep_types_concat(first, second.drop_last(), types, keep);
        assert((first + second).drop_last() =~= first + second.drop_last());
        assert(keep_types(first, types, keep) + keep_types(second.drop_last(), types, keep).push(
            last,
        ) =~= (keep_types(first, types, keep) + keep_types(second.drop_last(), types, keep)).push(
            last,
        ));
    }
}

/// Selecting and filtering split every stream into two parts: an event is
/// kept by exactly one of them, and the two parts together hold as many
/// events as the stream.
pub proof fn lemma_select_and_filter_partition(events: Seq<EvdevEvent>, types: Seq<u16>)
    ensures
        keep_types(events, types, true).len() + keep_types(events, types, false).len()
            == events.len(),
        forall|i: int|
            0 <= i < keep_types(events, types, true).len() ==> types.contains(
                #[trigger] keep_types(events, types, true)[i].event_type,
            ),
        forall|i: int|
            0 <= i < keep_types(events, types, false).len() ==> !types.contains(
                #[trigger] keep_types(events, types, false)[i].event_type,
            ),
    decreases events.len(),
{
    if events.len() > 0 {
        lemma_select_and_filter_partition(events.drop_last(), types);
    }
}

fn contains_type(types: &Vec<u16>, event_type: u16) -> (found: bool)
    ensures
        found == types@.contains(event_type),
{
    let mut i: usize = 0;
    while i < types.len()
        invariant
            i <= types@.len(),
            forall|j: int| 0 <= j < i ==> types@[j] != event_type,
        decreases types.len() - i,
    {
        if types[i] == event_type {
            assert(types@[i as int] == event_type);
            return true;
        }
        i = i + 1;
    }
    false
}

/// Passes on, in order, only the events whose type is one of the selected types.
pub struct SelectingEventSource<S> {
    source: S,
    selected_types: Vec<u16>,
    start: Ghost<nat>,
}

impl<S: EventSource> SelectingEventSource<S> {
    /// The wrapped source.
    pub closed spec fn source(&self) -> S {
        self.source
    }

    /// The types that pass.
    pub closed spec fn selected_types(&self) -> Seq<u16> {
        self.selected_types@
    }

    /// How many events the wrapped source had produced when it was wrapped.
    pub closed spec fn start(&self) -> nat {
        self.start@
    }

    pub fn new(source: S, selected_types: Vec<u16>) -> (selecting: Self)
        ensures
            source.valid() && source.produced().len() <= u64::MAX ==> selecting.valid(),
            selecting.source() == source,
            selecting.selected_types() == selected_types@,
            selecting.start() == source.produced().len(),
            selecting.produced() == Seq::<EvdevEvent>::empty(),
    {
        let selecting = SelectingEventSource {
            source,
            selected_types,
            start: Ghost(source.produced().len()),
        };
        assert(selecting.source.produced().skip(selecting.start@ as int) =~= Seq::<
            EvdevEvent,
        >::empty());
        selecting
    }

    pub fn into_inner(self) -> (source: S)
        ensures
            source == self.source(),
    {
        self.source
    }
}

impl<S: EventSource> EventSource for SelectingEventSource<S> {
    open spec fn valid(&self) -> bool {
        &&& self.source().valid()
        &&& self.start() <= self.source().produced().len() <= u64::MAX
    }

    open spec fn produced(&self) -> Seq<EvdevEvent> {
        keep_types(self.source().produced().skip(self.start() as int), self.selected_types(), true)
    }

    open spec fn ended(&self) -> bool {
        self.source().ended()
    }

    open spec fn failure(&self) -> Option<std::io::Error> {
        self.source().failure()
    }

    open spec fn intact(&self) -> bool {
        self.source().intact()
    }

    open spec fn origin(&self) -> Seq<u8> {
        self.source().origin()
    }

    fn next_event(&mut self) -> (next: std::io::Result<Option<EvdevEvent>>)
        ensures
            final(self).selected_types() == old(self).selected_types(),
            final(self).start() == old(self).start(),
            next matches Ok(Some(event)) ==> old(self).selected_types().contains(event.event_type),
    {
        loop
            invariant
                self.valid(),
                self.selected_types() == old(self).selected_types(),
                self.start() == old(self).start(),
                self.produced() == old(self).produced(),
                self.source().ended() == old(self).source().ended(),
                self.source().intact() == old(self).source().intact(),
                self.source().origin() == old(self).source().origin(),
            decreases u64::MAX - self.source().produced().len(),
        {
            let ghost before = self.source().produced();
            match self.source.next_event() {
                Ok(Some(event)) => {
                    proof {
                        lemma_skip_push(before, self.start() as int, event);
                        lemma_keep_types_push(
                            before.skip(self.start() as int),
                            event,
                            self.selected_types(),
                            true,
                        );
                        lemma_keep_types_len(
                            before.skip(self.start() as int),
                            self.selected_types(),
                            true,
                        );
                        lemma_keep_types_len(
                            self.source().produced().skip(self.start() as int),
                            self.selected_types(),
                            true,
                        );
                    }
                    if contains_type(&self.selected_types, event.event_type) {
                        return Ok(Some(event));
                    }
                },
                Ok(None) => {
                    proof {
                        lemma_keep_types_len(
                            self.source().produced().skip(self.start() as int),
                            self.selected_types(),
                            true,
                        );
                    }
                    return Ok(None);
                },
                Err(error) => {
                    proof {
                        lemma_keep_types_len(
                            self.source().produced().skip(self.start() as int),
                            self.selected_types(),
                            true,
                        );
                    }
                    return Err(error);
                },
            }
        }
    }
}

/// Passes on, in order, only the events whose type is not one of the filtered types.
pub struct FilteringEventSource<S> {
    source: S,
    filtered_types: Vec<u16>,
    start: Ghost<nat>,
}

impl<S: EventSource> FilteringEventSource<S> {
    /// The wrapped source.
    pub closed spec fn source(&self) -> S {
        self.source
    }

    /// The types that are dropped.
    pub closed spec fn filtered_types(&self) -> Seq<u16> {
        self.filtered_types@
    }

    /// How many events the wrapped source had produced when it was wrapped.
    pub closed spec fn start(&self) -> nat {
        self.start@
    }

    pub fn new(source: S, filtered_types: Vec<u16>) -> (filtering: Self)
        ensures
            source.valid() && source.produced().len() <= u64::MAX ==> filtering.valid(),
            filtering.source() == source,
            filtering.filtered_types() == filtered_types@,
            filtering.start() == source.produced().len(),
            filtering.produced() == Seq::<EvdevEvent>::empty(),
    {
        let filtering = FilteringEventSource {
            source,
            filtered_types,
            start: Ghost(source.produced().len()),
        };
        assert(filtering.source.produced().skip(filtering.start@ as int) =~= Seq::<
            EvdevEvent,
        >::empty());
        filtering
    }

    pub fn into_inner(self) -> (source: S)
        ensures
            source == self.source(),
    {
        self.source
    }
}

impl<S: EventSource> EventSource for FilteringEventSource<S> {
    open spec fn valid(&self) -> bool {
        &&& self.source().valid()
        &&& self.start() <= self.source().produced().len() <= u64::MAX
    }

    open spec fn produced(&self) -> Seq<EvdevEvent> {
        keep_types(self.source().produced().skip(self.start() as int), self.filtered_types(), false)
    }

    open spec fn ended(&self) -> bool {
        self.source().ended()
    }

    open spec fn failure(&self) -> Option<std::io::Error> {
        self.source().failure()
    }

    open spec fn intact(&self) -> bool {
        self.source().intact()
    }

    open spec fn origin(&self) -> Seq<u8> {
        self.source().origin()
    }

    fn next_event(&mut self) -> (next: std::io::Result<Option<EvdevEvent>>)
        ensures
            final(self).filtered_types() == old(self).filtered_types(),
            final(self).start() == old(self).start(),
            next matches Ok(Some(event)) ==> !old(self).filtered_types().contains(event.event_type),
    {
        loop
            invariant
                self.valid(),
                self.filtered_types() == old(self).filtered_types(),
                self.start() == old(self).start(),
                self.produced() == old(self).produced(),
                self.source().ended() == old(self).source().ended(),
                self.source().intact() == old(self).source().intact(),
                self.source().origin() == old(self).source().origin(),
            decreases u64::MAX - self.source().produced().len(),
        {
            let ghost before = self.source().produced();
            match self.source.next_event() {
                Ok(Some(event)) => {
                    proof {
                        lemma_skip_push(before, self.start() as int, event);
                        lemma_keep_types_push(
                            before.skip(self.start() as int),
                            event,
                            self.filtered_types(),
                            false,
                        );
                        lemma_keep_types_len(
                            before.skip(self.start() as int),
                            self.filtered_types(),
                            false,
                        );
                        lemma_keep_types_len(
                            self.source().produced().skip(self.start() as int),
                            self.filtered_types(),
                            false,
                        );
                    }
                    if !contains_type(&self.filtered_types, event.event_type) {
                        return Ok(Some(event));
                    }
                },
                Ok(None) => {
                    proof {
                        lemma_keep_types_len(
                            self.source().produced().skip(self.start() as int),
                            self.filtered_types(),
                            false,
                        );
                    }
                    return Ok(None);
                },
                Err(error) => {
                    proof {
                        lemma_keep_types_len(
                            self.source().produced().skip(self.start() as int),
                            self.filtered_types(),
                            false,
                        );
                    }
                    return Err(error);
                },
            }
        }
    }
}

} // verus!
