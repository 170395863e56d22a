//! The stall scenarios of a blocking frame read, played through the
//! library's read-step decisions and stall clock with a scripted source and a
//! scripted clock.

use thetadatadx::error::{Error, StreamErrorKind};
use thetadatadx::framing::{
    header_step, mid_header_stall_message, mid_payload_stall_message, payload_step, read_error_event, IoErrorClass,
    ReadEvent, ReadStep, StallClock,
};

/// One scripted read: what it produced and the clock (ms) after it.
type Script = Vec<(ReadEvent, u64)>;

enum Outcome {
    Complete,
    Fatal(Error),
    SurfaceIo,
}

fn protocol(message: String) -> Outcome {
    Outcome::Fatal(Error::Stream { kind: StreamErrorKind::ProtocolError, message })
}

fn drive_header(script: Script, budget_ms: u64) -> Outcome {
    let (mut read, mut stalling) = (0usize, false);
    let mut clock = StallClock::new(budget_ms);
    for (event, now) in script {
        let expired = clock.expired_after(event, read > 0, now);
        match header_step(read, stalling, event, expired) {
            ReadStep::Continue { read: r, stalling: s } => {
                read = r;
                stalling = s;
                clock.follow(s);
            }
            ReadStep::Complete => return Outcome::Complete,
            ReadStep::Stalled { got } => {
                return protocol(mid_header_stall_message(got, budget_ms, "simulated stall"))
            }
            ReadStep::SurfaceIo => return Outcome::SurfaceIo,
            ReadStep::CleanEnd | ReadStep::Truncated { .. } => panic!("unexpected end"),
        }
    }
    panic!("script ran out")
}

fn drive_payload(script: Script, len: usize, budget_ms: u64) -> Outcome {
    let (mut read, mut stalling) = (0usize, false);
    let mut clock = StallClock::new(budget_ms);
    for (event, now) in script {
        let expired = clock.expired_after(event, true, now);
        match payload_step(read, len, stalling, event, expired) {
            ReadStep::Continue { read: r, stalling: s } => {
                read = r;
                stalling = s;
                clock.follow(s);
            }
            ReadStep::Complete => return Outcome::Complete,
            ReadStep::Stalled { got } => {
                return protocol(mid_payload_stall_message(got, len, budget_ms, "simulated stall"))
            }
            ReadStep::SurfaceIo => return Outcome::SurfaceIo,
            ReadStep::CleanEnd | ReadStep::Truncated { .. } => panic!("unexpected end"),
        }
    }
    panic!("script ran out")
}

fn stall_forever_from(start: u64, event: ReadEvent) -> Script {
    (0..100).map(|t| (event, start + t)).collect()
}

fn expect_fatal(outcome: Outcome, phase: &str) {
    match outcome {
        Outcome::Fatal(Error::Stream { kind, message }) => {
            assert_eq!(kind, StreamErrorKind::ProtocolError);
            assert!(message.contains(phase) && message.contains("without progress for 20 ms"), "{message}");
        }
        _ => panic!("expected a fatal protocol error"),
    }
}

#[test]
fn mid_payload_stall_past_deadline_escalates_to_fatal() {
    // 2 of 4 payload bytes arrive, then the source stalls forever.
    let mut script = vec![(ReadEvent::Progress(2), 0)];
    script.extend(stall_forever_from(0, ReadEvent::Transient));
    expect_fatal(drive_payload(script, 4, 20), "mid-payload");
}

#[test]
fn mid_payload_progress_resets_deadline() {
    // 80 bytes, each preceded by a 5 ms stall: 400 ms in all against a 200 ms
    // budget, completed only because every byte re-arms the stall clock.
    let mut script = Script::new();
    let mut now = 0;
    for _ in 0..80 {
        now += 5;
        script.push((ReadEvent::Transient, now));
        script.push((ReadEvent::Progress(1), now));
    }
    assert!(now > 200);
    assert!(matches!(drive_payload(script, 80, 200), Outcome::Complete));
}

#[test]
fn mid_payload_timed_out_treated_like_would_block() {
    let timed_out = read_error_event(IoErrorClass::TimedOut, None);
    assert_eq!(timed_out, read_error_event(IoErrorClass::WouldBlock, None));
    let mut script = vec![(ReadEvent::Progress(1), 0)];
    script.extend(stall_forever_from(0, timed_out));
    expect_fatal(drive_payload(script, 3, 20), "mid-payload");
}

#[test]
fn mid_header_stall_past_deadline_escalates_to_fatal() {
    let mut script = vec![(ReadEvent::Progress(1), 0)];
    script.extend(stall_forever_from(0, ReadEvent::Transient));
    expect_fatal(drive_header(script, 20), "mid-header");
}

#[test]
fn pre_header_would_block_surfaces_as_io_error() {
    let would_block = read_error_event(IoErrorClass::WouldBlock, None);
    assert_eq!(would_block, ReadEvent::Transient);
    assert!(matches!(drive_header(stall_forever_from(0, would_block), 20), Outcome::SurfaceIo));
}
