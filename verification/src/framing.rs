//! Stream wire frame reader and writer.
//!
//! Every message, in both directions, is a two-byte header followed by the
//! payload:
//!
//! ```text
//! [LEN: u8] [CODE: u8] [PAYLOAD: LEN bytes]
//! ```
//!
//! `LEN` counts payload bytes only (0..=255); `CODE` is a [`StreamMsgType`].
//!
//! Reads are bounded by a per-stall no-progress timeout: a read that stalls
//! after some bytes of a frame have arrived is retried, and the stall clock is
//! re-armed on every byte of forward progress, so only `stall_timeout` of
//! total silence inside a frame is fatal. The per-read decisions are the pure
//! functions [`header_step`] and [`payload_step`]; the read loops drive them
//! against any `std::io::Read` source.

use vstd::prelude::*;
use vstd::string::StringExecFns;

use crate::enums::{StreamMsgType, msg_type_code, msg_type_code_round_trip, msg_type_from_code};
use crate::error::{Error, StreamErrorKind};
use crate::text::{nat_digits, unsigned_decimal_string};

verus! {

/// The standard library's instant type, carried through opaquely.
#[verifier::external_type_specification]
#[verifier::external_body]
pub struct ExInstant(std::time::Instant);

/// Windows `ERROR_IO_PENDING`, the raw OS error an in-flight overlapped read
/// reports instead of a would-block kind.
pub const ERROR_IO_PENDING: i32 = 997;

/// Maximum payload length (the length field is a single byte).
pub const MAX_PAYLOAD_LEN: usize = 255;

/// Per-server TCP connect deadline, in milliseconds (the default the
/// connect timeout knob starts from).
pub const CONNECT_TIMEOUT_MS: u64 = 2_000;

/// The categories of I/O error kind the read loops distinguish.
#[derive(Debug, Clone, Copy, PartialEq, Eq, Structural)]
pub enum IoErrorClass {
    WouldBlock,
    TimedOut,
    Interrupted,
    UnexpectedEof,
    Other,
}

/// Whether a read error with the given kind class and raw OS error is a
/// transient "no data right now" condition: would-block, timed-out, or the
/// Windows in-flight-read code.
pub open spec fn spec_transient(class: IoErrorClass, raw_os_error: Option<i32>) -> bool {
    class == IoErrorClass::WouldBlock || class == IoErrorClass::TimedOut || raw_os_error == Some(
        ERROR_IO_PENDING,
    )
}

/// Classify an I/O error kind and raw OS error as transient.
pub fn is_transient_fault(class: IoErrorClass, raw_os_error: Option<i32>) -> (r: bool)
    ensures
        r == spec_transient(class, raw_os_error),
{
    match class {
        IoErrorClass::WouldBlock | IoErrorClass::TimedOut => true,
        _ => match raw_os_error {
            Some(code) => code == ERROR_IO_PENDING,
            None => false,
        },
    }
}

/// `std::io::Error::kind`, sorted into the classes the read loops use.
#[verifier::external_body]
fn io_error_class(e: &std::io::Error) -> IoErrorClass {
    match e.kind() {
        std::io::ErrorKind::WouldBlock => IoErrorClass::WouldBlock,
        std::io::ErrorKind::TimedOut => IoErrorClass::TimedOut,
        std::io::ErrorKind::Interrupted => IoErrorClass::Interrupted,
        std::io::ErrorKind::UnexpectedEof => IoErrorClass::UnexpectedEof,
        _ => IoErrorClass::Other,
    }
}

/// `std::io::Error::raw_os_error`.
#[verifier::external_body]
fn io_error_raw_os_error(e: &std::io::Error) -> Option<i32> {
    e.raw_os_error()
}

/// Classify a raw `read()` error as a transient condition the framing and
/// I/O loops retry on rather than escalate: would-block, timed-out, or the
/// Windows `ERROR_IO_PENDING` raw OS error.
pub fn is_transient_read(io_err: &std::io::Error) -> bool {
    let class = io_error_class(io_err);
    let raw = io_error_raw_os_error(io_err);
    is_transient_fault(class, raw)
}

/// Whether a payload holds non-printable control bytes (binary data rather
/// than a human-readable message): any byte below `0x09`, or between `0x0E`
/// and `0x1F`.
pub open spec fn is_control_byte(b: u8) -> bool {
    b < 0x09 || (b > 0x0D && b < 0x20)
}

/// Whether any byte of the payload is a control byte.
pub fn is_binary_payload(payload: &[u8]) -> (r: bool)
    ensures
        r == exists|i: int| 0 <= i < payload@.len() && is_control_byte(#[trigger] payload@[i]),
{
    let mut i: usize = 0;
    while i < payload.len()
        invariant
            i <= payload@.len(),
            forall|j: int| 0 <= j < i ==> !is_control_byte(#[trigger] payload@[j]),
        decreases payload@.len() - i,
    {
        let b = payload[i];
        if b < 0x09 || (b > 0x0D && b < 0x20) {
            assert(is_control_byte(payload@[i as int]));
            return true;
        }
        i = i + 1;
    }
    false
}

/// The bytes of a frame carrying `payload` under `code`.
pub open spec fn frame_bytes(code: StreamMsgType, payload: Seq<u8>) -> Seq<u8> {
    seq![payload.len() as u8, msg_type_code(code)] + payload
}

/// Append one frame to `out`. A payload longer than [`MAX_PAYLOAD_LEN`] is
/// refused with a protocol error and `out` is left unchanged.
pub fn write_raw_frame_no_flush(out: &mut Vec<u8>, code: StreamMsgType, payload: &[u8]) -> (r:
    Result<(), Error>)
    ensures
        payload@.len() <= MAX_PAYLOAD_LEN <==> r is Ok,
        r is Ok ==> final(out)@ == old(out)@ + frame_bytes(code, payload@),
        r is Err ==> final(out)@ == old(out)@,
        r matches Err(Error::Stream { kind, .. }) ==> kind == StreamErrorKind::ProtocolError,
        r is Err ==> r->Err_0 is Stream,
{
    if payload.len() > MAX_PAYLOAD_LEN {
        return Err(Error::Stream {
            kind: StreamErrorKind::ProtocolError,
            message: payload_too_large_message(payload.len()),
        });
    }
    let ghost before = out@;
    out.push(payload.len() as u8);
    out.push(code.code());
    let mut i: usize = 0;
    while i < payload.len()
        invariant
            i <= payload@.len(),
            payload@.len() <= MAX_PAYLOAD_LEN,
            out@ == before + seq![payload@.len() as u8, msg_type_code(code)] + payload@.subrange(
                0,
                i as int,
            ),
        decreases payload@.len() - i,
    {
        out.push(payload[i]);
        i = i + 1;
        assert(payload@.subrange(0, i as int) == payload@.subrange(0, i - 1).push(
            payload@[i - 1],
        ));
    }
    assert(payload@.subrange(0, payload@.len() as int) == payload@);
    Ok(())
}

/// `format!` of the oversized-payload message.
fn payload_too_large_message(len: usize) -> (r: String)
    ensures
        r@ == "frame payload too large: "@ + nat_digits(len as nat) + " bytes (max "@ + nat_digits(
            MAX_PAYLOAD_LEN as nat,
        ) + ")"@,
{
    let mut m = "frame payload too large: ".to_owned();
    m.append(unsigned_decimal_string(len as u64).as_str());
    m.append(" bytes (max ");
    m.append(unsigned_decimal_string(MAX_PAYLOAD_LEN as u64).as_str());
    m.append(")");
    m
}

/// Outcome of parsing one frame out of an in-memory byte stream.
#[derive(Debug, Clone, Copy, PartialEq, Eq, Structural)]
pub enum FrameParse {
    /// The stream ends cleanly at the cursor.
    End,
    /// A frame: its code byte, payload start and length, and where the next
    /// frame begins.
    Frame { code: u8, payload_start: usize, payload_len: usize, next: usize },
    /// The stream ends inside a header (`got` of 2 bytes present).
    TruncatedHeader { got: usize },
    /// The stream ends inside a payload (`got` of `expected` bytes present).
    TruncatedPayload { got: usize, expected: usize },
}

/// The frame beginning at `pos` in `bytes`.
pub open spec fn spec_parse_frame_at(bytes: Seq<u8>, pos: int) -> FrameParse {
    if pos >= bytes.len() {
        FrameParse::End
    } else if pos + 1 == bytes.len() {
        FrameParse::TruncatedHeader { got: 1 }
    } else if pos + 2 + bytes[pos] as int > bytes.len() {
        FrameParse::TruncatedPayload {
            got: (bytes.len() - pos - 2) as usize,
            expected: bytes[pos] as usize,
        }
    } else {
        FrameParse::Frame {
            code: bytes[pos + 1],
            payload_start: (pos + 2) as usize,
            payload_len: bytes[pos] as usize,
            next: (pos + 2 + bytes[pos] as int) as usize,
        }
    }
}

/// Parse the frame that begins at `pos` in a complete byte stream.
pub fn parse_frame_at(bytes: &[u8], pos: usize) -> (r: FrameParse)
    ensures
        r == spec_parse_frame_at(bytes@, pos as int),
        r matches FrameParse::Frame { code, payload_start, payload_len, next } ==> {
            &&& payload_start == pos + 2
            &&& next == payload_start + payload_len
            &&& next <= bytes@.len()
            &&& payload_len == bytes@[pos as int] as usize
            &&& code == bytes@[pos + 1]
        },
{
    if pos >= bytes.len() {
        FrameParse::End
    } else if bytes.len() - pos == 1 {
        FrameParse::TruncatedHeader { got: 1 }
    } else {
        let len = bytes[pos] as usize;
        if bytes.len() - pos - 2 < len {
            FrameParse::TruncatedPayload { got: bytes.len() - pos - 2, expected: len }
        } else {
            FrameParse::Frame {
                code: bytes[pos + 1],
                payload_start: pos + 2,
                payload_len: len,
                next: pos + 2 + len,
            }
        }
    }
}

/// Where reading from `pos` stops, and what it finds there: frames whose
/// code byte names no message type are passed over, so the result is the
/// first frame with a recognised code, or the clean end of the stream, or
/// a frame the stream ends inside of.
pub open spec fn spec_read_frame(bytes: Seq<u8>, pos: int) -> (int, FrameParse)
    decreases bytes.len() - pos,
    when 0 <= pos && bytes.len() <= usize::MAX
{
    let p = spec_parse_frame_at(bytes, pos);
    match p {
        FrameParse::Frame { code, next, .. } => if msg_type_from_code(code) is None {
            spec_read_frame(bytes, next as int)
        } else {
            (pos, p)
        },
        _ => (pos, p),
    }
}

/// Read one frame with a recognised code from an in-memory byte stream,
/// starting at `*pos`, into the reusable buffer `buf`.
///
/// Frames with unrecognised codes are consumed (keeping the stream aligned)
/// and skipped. Returns `Ok(None)` at a clean end of stream, and
/// `Ok(Some((code, len)))` with `buf[..len]` holding the payload otherwise;
/// a stream that ends inside a frame is a protocol error. The cursor ends
/// just past the frame returned, at the end of the stream, or at the start
/// of the frame the stream ends inside of.
pub fn read_frame_into(bytes: &[u8], pos: &mut usize, buf: &mut Vec<u8>) -> (r: Result<
    Option<(StreamMsgType, usize)>,
    Error,
>)
    requires
        *old(pos) <= bytes@.len(),
    ensures
        *old(pos) <= *final(pos) <= bytes@.len(),
        match spec_read_frame(bytes@, *old(pos) as int) {
            (at, FrameParse::End) => r == Ok::<Option<(StreamMsgType, usize)>, Error>(None)
                && *final(pos) == at && at == bytes@.len(),
            (at, FrameParse::Frame { code, payload_start, payload_len, next }) => {
                &&& msg_type_from_code(code) matches Some(t) && r == Ok::<
                    Option<(StreamMsgType, usize)>,
                    Error,
                >(Some((t, payload_len)))
                &&& *final(pos) == next
                &&& final(buf)@ == bytes@.subrange(payload_start as int, next as int)
            },
            (at, FrameParse::TruncatedHeader { got }) => *final(pos) == at && (r matches Err(
                Error::Stream { kind, message },
            ) && kind == StreamErrorKind::ProtocolError && message@ == "truncated FPSS header: got "@
                + nat_digits(got as nat) + " byte(s), expected 2"@),
            (at, FrameParse::TruncatedPayload { got, expected }) => *final(pos) == at && (r matches Err(
                Error::Stream { kind, message },
            ) && kind == StreamErrorKind::ProtocolError && message@ == "EOF mid-payload: got "@
                + nat_digits(got as nat) + " of "@ + nat_digits(expected as nat) + " bytes"@),
        },
{
    let n = bytes.len();
    loop
        invariant
            n == bytes@.len(),
            *old(pos) <= *pos <= bytes@.len(),
            spec_read_frame(bytes@, *pos as int) == spec_read_frame(bytes@, *old(pos) as int),
        decreases bytes@.len() - *pos,
    {
        let ghost here = *pos as int;
        let parsed = parse_frame_at(bytes, *pos);
        proof {
            assert(spec_parse_frame_at(bytes@, here) == parsed);
            match parsed {
                FrameParse::Frame { code, next, .. } => {
                    if msg_type_from_code(code) is None {
                        assert(spec_read_frame(bytes@, here) == spec_read_frame(bytes@, next as int));
                    } else {
                        assert(spec_read_frame(bytes@, here) == (here, parsed));
                    }
                },
                _ => {
                    assert(spec_read_frame(bytes@, here) == (here, parsed));
                },
            }
        }
        match parsed {
            FrameParse::End => {
                return Ok(None);
            },
            FrameParse::TruncatedHeader { got } => {
                return Err(Error::Stream {
                    kind: StreamErrorKind::ProtocolError,
                    message: truncated_header_message(got),
                });
            },
            FrameParse::TruncatedPayload { got, expected } => {
                return Err(Error::Stream {
                    kind: StreamErrorKind::ProtocolError,
                    message: eof_mid_payload_message(got, expected),
                });
            },
            FrameParse::Frame { code, payload_start, payload_len, next } => {
                let p0 = *pos;
                buf.clear();
                let mut i: usize = 0;
                while i < payload_len
                    invariant
                        i <= payload_len,
                        *old(pos) <= p0 <= bytes@.len(),
                        payload_start == p0 + 2,
                        next == payload_start + payload_len,
                        next <= bytes@.len(),
                        bytes@[p0 as int] as int == payload_len,
                        bytes@[p0 + 1] == code,
                        buf@ == bytes@.subrange(payload_start as int, payload_start + i),
                    decreases payload_len - i,
                {
                    buf.push(bytes[payload_start + i]);
                    i = i + 1;
                }
                *pos = next;
                match StreamMsgType::from_code(code) {
                    Some(t) => {
                        return Ok(Some((t, payload_len)));
                    },
                    None => {},
                }
            },
        }
    }
}

/// Message of a stream that ends inside a frame header, `got` bytes in.
pub fn truncated_header_message(got: usize) -> (r: String)
    ensures
        r@ == "truncated FPSS header: got "@ + nat_digits(got as nat) + " byte(s), expected 2"@,
{
    let mut m = "truncated FPSS header: got ".to_owned();
    m.append(unsigned_decimal_string(got as u64).as_str());
    m.append(" byte(s), expected 2");
    m
}

/// Message of a stream that ends inside a payload, `got` of `expected` bytes in.
pub fn eof_mid_payload_message(got: usize, expected: usize) -> (r: String)
    ensures
        r@ == "EOF mid-payload: got "@ + nat_digits(got as nat) + " of "@ + nat_digits(expected as nat)
            + " bytes"@,
{
    let mut m = "EOF mid-payload: got ".to_owned();
    m.append(unsigned_decimal_string(got as u64).as_str());
    m.append(" of ");
    m.append(unsigned_decimal_string(expected as u64).as_str());
    m.append(" bytes");
    m
}

/// What one `read()` call on the byte source produced.
#[derive(Debug, Clone, Copy, PartialEq, Eq, Structural)]
pub enum ReadEvent {
    /// `Ok(k)` with `k > 0` bytes.
    Progress(usize),
    /// `Ok(0)`: the source closed.
    Closed,
    /// An error of kind `Interrupted` (a benign signal wakeup).
    Interrupted,
    /// An error of kind `UnexpectedEof`.
    UnexpectedEof,
    /// A transient "no data right now" error (see [`is_transient_read`]).
    Transient,
    /// Any other error.
    Fatal,
}

/// Sort a read error into the event the step functions consume.
pub fn read_error_event(class: IoErrorClass, raw_os_error: Option<i32>) -> (r: ReadEvent)
    ensures
        class == IoErrorClass::Interrupted ==> r == ReadEvent::Interrupted,
        class == IoErrorClass::UnexpectedEof ==> r == ReadEvent::UnexpectedEof,
        class != IoErrorClass::Interrupted && class != IoErrorClass::UnexpectedEof ==> (r
            == if spec_transient(class, raw_os_error) {
            ReadEvent::Transient
        } else {
            ReadEvent::Fatal
        }),
{
    match class {
        IoErrorClass::Interrupted => ReadEvent::Interrupted,
        IoErrorClass::UnexpectedEof => ReadEvent::UnexpectedEof,
        _ => if is_transient_fault(class, raw_os_error) {
            ReadEvent::Transient
        } else {
            ReadEvent::Fatal
        },
    }
}

/// Sort a `read()` error into the event the step functions consume, by its
/// kind and raw OS error ([`read_error_event`] of those). A failed read is
/// never progress nor a clean close.
pub fn classify_read_error(io_err: &std::io::Error) -> (r: ReadEvent)
    ensures
        !(r is Progress) && !(r is Closed),
{
    let class = io_error_class(io_err);
    let raw = io_error_raw_os_error(io_err);
    read_error_event(class, raw)
}

/// What a read loop does after one read.
#[derive(Debug, Clone, Copy, PartialEq, Eq, Structural)]
pub enum ReadStep {
    /// Read again with `read` bytes in hand; `stalling` says whether the stall
    /// clock is armed (it is disarmed by any progress).
    Continue { read: usize, stalling: bool },
    /// The header or payload is complete.
    Complete,
    /// The source closed cleanly before any byte of the frame.
    CleanEnd,
    /// The source closed part-way through (`got` bytes in hand).
    Truncated { got: usize },
    /// No progress for the whole stall budget with `got` bytes in hand.
    Stalled { got: usize },
    /// Surface the read error itself.
    SurfaceIo,
}

/// Decision after one read of the two-byte header, with `read` header bytes
/// already in hand.
pub open spec fn spec_header_step(read: usize, stalling: bool, event: ReadEvent, stall_expired: bool) -> ReadStep {
    match event {
        ReadEvent::Progress(k) => if read + k >= 2 {
            ReadStep::Complete
        } else {
            ReadStep::Continue { read: (read + k) as usize, stalling: false }
        },
        ReadEvent::Closed => if read == 0 {
            ReadStep::CleanEnd
        } else {
            ReadStep::Truncated { got: read }
        },
        ReadEvent::UnexpectedEof => if read == 0 {
            ReadStep::CleanEnd
        } else {
            ReadStep::Truncated { got: read }
        },
        ReadEvent::Interrupted => ReadStep::Continue { read, stalling },
        ReadEvent::Transient => if read == 0 {
            ReadStep::SurfaceIo
        } else if stall_expired {
            ReadStep::Stalled { got: read }
        } else {
            ReadStep::Continue { read, stalling: true }
        },
        ReadEvent::Fatal => ReadStep::SurfaceIo,
    }
}

/// Decide what the header read does after one read.
///
/// A pre-header transient (nothing in flight) surfaces as the I/O error so the
/// I/O loop can service its queues; a mid-header transient is retried under
/// the stall clock, and only an expired stall is fatal.
pub fn header_step(read: usize, stalling: bool, event: ReadEvent, stall_expired: bool) -> (r: ReadStep)
    requires
        read < 2,
    ensures
        r == spec_header_step(read, stalling, event, stall_expired),
{
    match event {
        ReadEvent::Progress(k) => if k >= 2 - read {
            ReadStep::Complete
        } else {
            ReadStep::Continue { read: read + k, stalling: false }
        },
        ReadEvent::Closed | ReadEvent::UnexpectedEof => if read == 0 {
            ReadStep::CleanEnd
        } else {
            ReadStep::Truncated { got: read }
        },
        ReadEvent::Interrupted => ReadStep::Continue { read, stalling },
        ReadEvent::Transient => if read == 0 {
            ReadStep::SurfaceIo
        } else if stall_expired {
            ReadStep::Stalled { got: read }
        } else {
            ReadStep::Continue { read, stalling: true }
        },
        ReadEvent::Fatal => ReadStep::SurfaceIo,
    }
}

/// Decision after one read of a `len`-byte payload, with `read` bytes already
/// in hand.
pub open spec fn spec_payload_step(read: usize, len: usize, stalling: bool, event: ReadEvent, stall_expired: bool) -> ReadStep {
    match event {
        ReadEvent::Progress(k) => if read + k >= len {
            ReadStep::Complete
        } else {
            ReadStep::Continue { read: (read + k) as usize, stalling: false }
        },
        ReadEvent::Closed => ReadStep::Truncated { got: read },
        ReadEvent::Interrupted => ReadStep::Continue { read, stalling },
        ReadEvent::Transient => if stall_expired {
            ReadStep::Stalled { got: read }
        } else {
            ReadStep::Continue { read, stalling: true }
        },
        ReadEvent::UnexpectedEof => ReadStep::SurfaceIo,
        ReadEvent::Fatal => ReadStep::SurfaceIo,
    }
}

/// Decide what the payload read does after one read: progress re-arms the
/// stall clock, a transient is retried until the stall budget expires, and
/// a close part-way through is fatal.
pub fn payload_step(read: usize, len: usize, stalling: bool, event: ReadEvent, stall_expired: bool) -> (r: ReadStep)
    requires
        read < len,
    ensures
        r == spec_payload_step(read, len, stalling, event, stall_expired),
{
    match event {
        ReadEvent::Progress(k) => if k >= len - read {
            ReadStep::Complete
        } else {
            ReadStep::Continue { read: read + k, stalling: false }
        },
        ReadEvent::Closed => ReadStep::Truncated { got: read },
        ReadEvent::Interrupted => ReadStep::Continue { read, stalling },
        ReadEvent::Transient => if stall_expired {
            ReadStep::Stalled { got: read }
        } else {
            ReadStep::Continue { read, stalling: true }
        },
        ReadEvent::UnexpectedEof | ReadEvent::Fatal => ReadStep::SurfaceIo,
    }
}

/// Forward progress always disarms the stall clock and is never fatal; a
/// stall failure happens only on a transient read, with bytes of the frame in
/// flight, once the stall budget has expired since the last progress.
pub proof fn stall_clock_rearms_on_progress(
    read: usize,
    len: usize,
    stalling: bool,
    event: ReadEvent,
    stall_expired: bool,
)
    requires
        read < len,
        read < 2,
    ensures
        event is Progress ==> match spec_header_step(read, stalling, event, stall_expired) {
            ReadStep::Continue { stalling: s, .. } => !s,
            ReadStep::Complete => true,
            _ => false,
        },
        event is Progress ==> match spec_payload_step(read, len, stalling, event, stall_expired) {
            ReadStep::Continue { stalling: s, .. } => !s,
            ReadStep::Complete => true,
            _ => false,
        },
        spec_header_step(read, stalling, event, stall_expired) is Stalled ==> read > 0
            && event == ReadEvent::Transient && stall_expired,
        spec_payload_step(read, len, stalling, event, stall_expired) is Stalled ==> event
            == ReadEvent::Transient && stall_expired,
        !stall_expired ==> !(spec_header_step(read, stalling, event, stall_expired) is Stalled),
        !stall_expired ==> !(spec_payload_step(read, len, stalling, event, stall_expired) is Stalled),
{
}

/// A transient read before any header byte arrives is surfaced as the I/O
/// error (never a fatal protocol error); a clean close before any byte is a
/// clean end of stream.
pub proof fn pre_header_reads_are_benign(stalling: bool, event: ReadEvent, stall_expired: bool)
    ensures
        event == ReadEvent::Transient ==> spec_header_step(0, stalling, event, stall_expired)
            == ReadStep::SurfaceIo,
        event == ReadEvent::Closed ==> spec_header_step(0, stalling, event, stall_expired)
            == ReadStep::CleanEnd,
        !(spec_header_step(0, stalling, event, stall_expired) is Stalled),
        !(spec_header_step(0, stalling, event, stall_expired) is Truncated),
{
}

/// Writing a frame and reading it back yields the same code and payload, and
/// leaves the cursor just past the frame.
pub proof fn frame_round_trip(code: StreamMsgType, payload: Seq<u8>, rest: Seq<u8>)
    requires
        payload.len() <= MAX_PAYLOAD_LEN,
    ensures
        ({
            let bytes = frame_bytes(code, payload) + rest;
            &&& spec_parse_frame_at(bytes, 0) == (FrameParse::Frame {
                code: msg_type_code(code),
                payload_start: 2,
                payload_len: payload.len() as usize,
                next: (payload.len() + 2) as usize,
            })
            &&& bytes.subrange(2, payload.len() as int + 2) == payload
            &&& msg_type_from_code(msg_type_code(code)) == Some(code)
        }),
{
    let bytes = frame_bytes(code, payload) + rest;
    assert(bytes[0] == payload.len() as u8);
    assert(bytes[1] == msg_type_code(code));
    assert(bytes.subrange(2, payload.len() as int + 2) =~= payload);
}

/// The stall clock of one header or payload read: the deadline (in
/// milliseconds on the caller's monotonic clock) by which some progress must
/// arrive, armed while a transient read leaves bytes of the frame in flight.
pub struct StallClock {
    budget_ms: u64,
    deadline_ms: Option<u64>,
}

impl StallClock {
    /// The budget of silence the clock allows.
    pub closed spec fn budget(&self) -> u64 {
        self.budget_ms
    }

    /// When the clock runs out, if it is armed.
    pub closed spec fn deadline(&self) -> Option<u64> {
        self.deadline_ms
    }

    /// A disarmed clock with a budget of `budget_ms`.
    pub fn new(budget_ms: u64) -> (c: StallClock)
        ensures
            c.budget() == budget_ms,
            c.deadline() is None,
    {
        StallClock { budget_ms, deadline_ms: None }
    }

    /// Whether the stall budget has run out at `now_ms`, after a read that
    /// produced `event` with bytes of the frame in flight or not. A transient
    /// read in flight arms the clock (deadline `now_ms + budget`, saturating)
    /// unless it is armed already; the budget has run out once `now_ms`
    /// reaches the deadline. Any other read leaves the clock as it was.
    pub fn expired_after(&mut self, event: ReadEvent, in_flight: bool, now_ms: u64) -> (r: bool)
        ensures
            final(self).budget() == old(self).budget(),
            (event == ReadEvent::Transient && in_flight) ==> {
                let d = match old(self).deadline() {
                    Some(d) => d as int,
                    None => if now_ms + old(self).budget() > u64::MAX {
                        u64::MAX as int
                    } else {
                        now_ms + old(self).budget()
                    },
                };
                &&& final(self).deadline() == Some(d as u64)
                &&& r == (now_ms >= d)
            },
            !(event == ReadEvent::Transient && in_flight) ==> !r && final(self).deadline()
                == old(self).deadline(),
    {
        if event == ReadEvent::Transient && in_flight {
            let d = match self.deadline_ms {
                Some(d) => d,
                None => {
                    let armed = if self.budget_ms > u64::MAX - now_ms {
                        u64::MAX
                    } else {
                        now_ms + self.budget_ms
                    };
                    self.deadline_ms = Some(armed);
                    armed
                },
            };
            now_ms >= d
        } else {
            false
        }
    }

    /// Follow a read step: progress (`stalling` false) disarms the clock.
    pub fn follow(&mut self, stalling: bool)
        ensures
            final(self).budget() == old(self).budget(),
            final(self).deadline() == if stalling {
                old(self).deadline()
            } else {
                None
            },
    {
        if !stalling {
            self.deadline_ms = None;
        }
    }
}

/// Message of a header read that stalled `got` of 2 bytes in, for
/// `budget_ms` without progress, on the read error `cause`.
pub fn mid_header_stall_message(got: usize, budget_ms: u64, cause: &str) -> (r: String)
    ensures
        r@ == "mid-header read timeout after "@ + nat_digits(got as nat)
            + " of 2 byte(s) without progress for "@ + nat_digits(budget_ms as nat) + " ms: "@
            + cause@,
{
    let mut m = "mid-header read timeout after ".to_owned();
    m.append(unsigned_decimal_string(got as u64).as_str());
    m.append(" of 2 byte(s) without progress for ");
    m.append(unsigned_decimal_string(budget_ms).as_str());
    m.append(" ms: ");
    m.append(cause);
    m
}

/// Message of a payload read that stalled `got` of `len` bytes in, for
/// `budget_ms` without progress, on the read error `cause`.
pub fn mid_payload_stall_message(got: usize, len: usize, budget_ms: u64, cause: &str) -> (r: String)
    ensures
        r@ == "mid-payload read timeout after "@ + nat_digits(got as nat) + " of "@ + nat_digits(
            len as nat,
        ) + " byte(s) without progress for "@ + nat_digits(budget_ms as nat) + " ms: "@ + cause@,
{
    let mut m = "mid-payload read timeout after ".to_owned();
    m.append(unsigned_decimal_string(got as u64).as_str());
    m.append(" of ");
    m.append(unsigned_decimal_string(len as u64).as_str());
    m.append(" byte(s) without progress for ");
    m.append(unsigned_decimal_string(budget_ms).as_str());
    m.append(" ms: ");
    m.append(cause);
    m
}

/// The bytes of frames written one after another.
pub open spec fn frames_bytes(frames: Seq<(StreamMsgType, Seq<u8>)>) -> Seq<u8>
    decreases frames.len(),
{
    if frames.len() == 0 {
        Seq::empty()
    } else {
        frames_bytes(frames.drop_last()) + frame_bytes(frames.last().0, frames.last().1)
    }
}

/// Where frame `i` starts among frames written one after another.
pub open spec fn frame_offset(frames: Seq<(StreamMsgType, Seq<u8>)>, i: int) -> int {
    frames_bytes(frames.take(i)).len() as int
}

proof fn lemma_frames_bytes_prefix(frames: Seq<(StreamMsgType, Seq<u8>)>, j: int)
    requires
        0 <= j <= frames.len(),
    ensures
        frames_bytes(frames.take(j)).len() <= frames_bytes(frames).len(),
        frames_bytes(frames).subrange(0, frames_bytes(frames.take(j)).len() as int) == frames_bytes(
            frames.take(j),
        ),
    decreases frames.len(),
{
    if j == frames.len() {
        assert(frames.take(j) =~= frames);
        assert(frames_bytes(frames).subrange(0, frames_bytes(frames).len() as int) =~= frames_bytes(frames));
    } else {
        let dl = frames.drop_last();
        lemma_frames_bytes_prefix(dl, j);
        assert(dl.take(j) =~= frames.take(j));
        let whole = frames_bytes(frames);
        let front = frames_bytes(dl);
        assert(whole == front + frame_bytes(frames.last().0, frames.last().1));
        assert(whole.subrange(0, frames_bytes(frames.take(j)).len() as int) =~= front.subrange(
            0,
            frames_bytes(frames.take(j)).len() as int,
        ));
    }
}

/// Frames written one after another read back one by one, each with its
/// code and payload, the cursor moving from one frame to the next, and
/// after the last frame the stream ends cleanly.
pub proof fn frames_read_back_in_order(frames: Seq<(StreamMsgType, Seq<u8>)>)
    requires
        forall|i: int| 0 <= i < frames.len() ==> (#[trigger] frames[i]).1.len() <= MAX_PAYLOAD_LEN,
        frames_bytes(frames).len() <= usize::MAX,
    ensures
        forall|i: int|
            0 <= i < frames.len() ==> #[trigger] spec_read_frame(frames_bytes(frames), frame_offset(frames, i))
                == (frame_offset(frames, i), FrameParse::Frame {
                code: msg_type_code(frames[i].0),
                payload_start: (frame_offset(frames, i) + 2) as usize,
                payload_len: frames[i].1.len() as usize,
                next: frame_offset(frames, i + 1) as usize,
            }) && frames_bytes(frames).subrange(frame_offset(frames, i) + 2, frame_offset(frames, i + 1))
                == frames[i].1 && msg_type_from_code(msg_type_code(frames[i].0)) == Some(frames[i].0),
        spec_read_frame(frames_bytes(frames), frames_bytes(frames).len() as int) == (
            frames_bytes(frames).len() as int,
            FrameParse::End,
        ),
{
    let bytes = frames_bytes(frames);
    assert forall|i: int| 0 <= i < frames.len() implies #[trigger] spec_read_frame(bytes, frame_offset(frames, i))
        == (frame_offset(frames, i), FrameParse::Frame {
        code: msg_type_code(frames[i].0),
        payload_start: (frame_offset(frames, i) + 2) as usize,
        payload_len: frames[i].1.len() as usize,
        next: frame_offset(frames, i + 1) as usize,
    }) && bytes.subrange(frame_offset(frames, i) + 2, frame_offset(frames, i + 1)) == frames[i].1
        && msg_type_from_code(msg_type_code(frames[i].0)) == Some(frames[i].0) by {
        let (code, payload) = frames[i];
        let head = frames_bytes(frames.take(i));
        let fb = frame_bytes(code, payload);
        let upto = frames.take(i + 1);
        assert(upto.drop_last() =~= frames.take(i));
        assert(upto.last() == frames[i]);
        assert(frames_bytes(upto) == head + fb);
        lemma_frames_bytes_prefix(frames, i + 1);
        let off = head.len() as int;
        let next = off + 2 + payload.len();
        assert(frames_bytes(upto).len() == next);
        assert(bytes.subrange(0, next) == head + fb);
        assert(bytes.subrange(0, next)[off] == bytes[off]);
        assert(bytes.subrange(0, next)[off + 1] == bytes[off + 1]);
        assert(bytes[off] == fb[0]);
        assert(bytes[off + 1] == fb[1]);
        assert(bytes.subrange(off + 2, next) =~= payload) by {
            assert forall|t: int| 0 <= t < payload.len() implies bytes.subrange(off + 2, next)[t]
                == payload[t] by {
                assert(bytes[off + 2 + t] == (head + fb)[off + 2 + t]);
            }
        }
        msg_type_code_round_trip(code, 0);
        assert(spec_parse_frame_at(bytes, off) == FrameParse::Frame {
            code: msg_type_code(code),
            payload_start: (off + 2) as usize,
            payload_len: payload.len() as usize,
            next: next as usize,
        });
        assert(spec_read_frame(bytes, off) == (off, spec_parse_frame_at(bytes, off)));
    }
    assert(spec_read_frame(bytes, bytes.len() as int) == (bytes.len() as int, FrameParse::End));
}


/// Before any header byte has arrived, an end of stream is a clean end,
/// whether `read()` reported it as `Ok(0)` or as an `UnexpectedEof` error;
/// once a header byte is in hand, either one is a truncated header.
pub proof fn end_of_stream_between_frames_is_clean(read: usize, stalling: bool, stall_expired: bool)
    requires
        read < 2,
    ensures
        spec_header_step(0, stalling, ReadEvent::UnexpectedEof, stall_expired) == ReadStep::CleanEnd,
        spec_header_step(0, stalling, ReadEvent::Closed, stall_expired) == ReadStep::CleanEnd,
        read > 0 ==> spec_header_step(read, stalling, ReadEvent::UnexpectedEof, stall_expired)
            == (ReadStep::Truncated { got: read }),
        read > 0 ==> spec_header_step(read, stalling, ReadEvent::Closed, stall_expired)
            == (ReadStep::Truncated { got: read }),
{
}


/// Part-way through a payload, a clean close is a truncated frame holding
/// the bytes in hand, and an `UnexpectedEof` error is surfaced as I/O.
pub proof fn end_of_stream_inside_a_payload_is_an_error(
    read: usize,
    len: usize,
    stalling: bool,
    stall_expired: bool,
)
    requires
        read < len,
    ensures
        spec_payload_step(read, len, stalling, ReadEvent::Closed, stall_expired)
            == (ReadStep::Truncated { got: read }),
        spec_payload_step(read, len, stalling, ReadEvent::UnexpectedEof, stall_expired) == ReadStep::SurfaceIo,
{
}

} // verus!
