use thetadatadx::framing::{
    eof_mid_payload_message, mid_header_stall_message, mid_payload_stall_message, truncated_header_message,
    StallClock,
};
use thetadatadx::enums::StreamMsgType;
use thetadatadx::error::{Error, StreamErrorKind};
use thetadatadx::framing::{
    classify_read_error, header_step, is_binary_payload, is_transient_fault, is_transient_read, parse_frame_at, payload_step,
    read_error_event, read_frame_into, write_raw_frame_no_flush, FrameParse, IoErrorClass, ReadEvent,
    ReadStep, CONNECT_TIMEOUT_MS, ERROR_IO_PENDING,
};

#[test]
fn is_transient_read_recognises_windows_error_io_pending() {
    let err = std::io::Error::from_raw_os_error(ERROR_IO_PENDING);
    assert_ne!(err.kind(), std::io::ErrorKind::WouldBlock);
    assert_ne!(err.kind(), std::io::ErrorKind::TimedOut);
    assert_eq!(err.raw_os_error(), Some(997));
    assert!(
        is_transient_read(&err),
        "ERROR_IO_PENDING (os error 997) must be classified as transient"
    );
    let real_err = std::io::Error::from_raw_os_error(104);
    assert!(!is_transient_read(&real_err), "ECONNRESET must not be classified as transient");
    let wb = std::io::Error::new(std::io::ErrorKind::WouldBlock, "x");
    let to = std::io::Error::new(std::io::ErrorKind::TimedOut, "x");
    assert!(is_transient_read(&wb));
    assert!(is_transient_read(&to));
}

#[test]
fn connect_timeout_matches_terminal() {
    assert_eq!(CONNECT_TIMEOUT_MS, 2_000);
}

#[test]
fn transient_classification_by_class() {
    assert!(is_transient_fault(IoErrorClass::WouldBlock, None));
    assert!(is_transient_fault(IoErrorClass::TimedOut, Some(5)));
    assert!(is_transient_fault(IoErrorClass::Other, Some(997)));
    assert!(!is_transient_fault(IoErrorClass::Other, Some(104)));
    assert!(!is_transient_fault(IoErrorClass::Interrupted, None));
    assert_eq!(read_error_event(IoErrorClass::Interrupted, None), ReadEvent::Interrupted);
    assert_eq!(read_error_event(IoErrorClass::UnexpectedEof, None), ReadEvent::UnexpectedEof);
    assert_eq!(read_error_event(IoErrorClass::WouldBlock, None), ReadEvent::Transient);
    assert_eq!(read_error_event(IoErrorClass::Other, None), ReadEvent::Fatal);
}

#[test]
fn binary_payload_detection() {
    assert!(!is_binary_payload(b"Invalid request\r\n\tplease retry"));
    assert!(is_binary_payload(&[0x41, 0x00, 0x42]));
    assert!(is_binary_payload(&[0x1B]));
    assert!(!is_binary_payload(&[]));
}

#[test]
fn frame_write_then_read_round_trips() {
    let mut out: Vec<u8> = Vec::new();
    write_raw_frame_no_flush(&mut out, StreamMsgType::Ping, &[0]).unwrap();
    write_raw_frame_no_flush(&mut out, StreamMsgType::Metadata, b"perms").unwrap();
    assert_eq!(out, vec![1, 10, 0, 5, 3, b'p', b'e', b'r', b'm', b's']);
    let mut pos = 0usize;
    let mut buf: Vec<u8> = Vec::new();
    let first = read_frame_into(&out, &mut pos, &mut buf).unwrap();
    assert_eq!(first, Some((StreamMsgType::Ping, 1)));
    assert_eq!(buf, vec![0]);
    let second = read_frame_into(&out, &mut pos, &mut buf).unwrap();
    assert_eq!(second, Some((StreamMsgType::Metadata, 5)));
    assert_eq!(buf, b"perms".to_vec());
    assert_eq!(read_frame_into(&out, &mut pos, &mut buf).unwrap(), None);
}

#[test]
fn oversized_payload_is_refused_and_leaves_buffer() {
    let mut out: Vec<u8> = vec![7];
    let big = vec![0u8; 256];
    match write_raw_frame_no_flush(&mut out, StreamMsgType::Error, &big) {
        Err(Error::Stream { kind, message }) => {
            assert_eq!(kind, StreamErrorKind::ProtocolError);
            assert_eq!(message, "frame payload too large: 256 bytes (max 255)");
        }
        other => panic!("expected a protocol error, got {other:?}"),
    }
    assert_eq!(out, vec![7]);
}

#[test]
fn read_frame_into_skips_unknown_codes() {
    let bytes = vec![2, 99, 1, 2, 0, 4];
    let mut pos = 0usize;
    let mut buf: Vec<u8> = Vec::new();
    let r = read_frame_into(&bytes, &mut pos, &mut buf).unwrap();
    assert_eq!(r, Some((StreamMsgType::Connected, 0)));
    assert_eq!(pos, 6);
}

#[test]
fn truncated_streams_are_protocol_errors() {
    let mut pos = 0usize;
    let mut buf: Vec<u8> = Vec::new();
    match read_frame_into(&[3], &mut pos, &mut buf) {
        Err(Error::Stream { kind, message }) => {
            assert_eq!(kind, StreamErrorKind::ProtocolError);
            assert_eq!(message, "truncated FPSS header: got 1 byte(s), expected 2");
        }
        other => panic!("unexpected {other:?}"),
    }
    let mut pos = 0usize;
    match read_frame_into(&[4, 21, 1], &mut pos, &mut buf) {
        Err(Error::Stream { message, .. }) => {
            assert_eq!(message, "EOF mid-payload: got 1 of 4 bytes");
        }
        other => panic!("unexpected {other:?}"),
    }
    assert_eq!(parse_frame_at(&[], 0), FrameParse::End);
}

#[test]
fn header_and_payload_steps() {
    assert_eq!(header_step(0, false, ReadEvent::Progress(2), false), ReadStep::Complete);
    assert_eq!(
        header_step(0, false, ReadEvent::Progress(1), false),
        ReadStep::Continue { read: 1, stalling: false }
    );
    assert_eq!(header_step(0, false, ReadEvent::Closed, false), ReadStep::CleanEnd);
    assert_eq!(header_step(1, false, ReadEvent::Closed, false), ReadStep::Truncated { got: 1 });
    assert_eq!(header_step(0, false, ReadEvent::Transient, true), ReadStep::SurfaceIo);
    assert_eq!(header_step(1, true, ReadEvent::Transient, true), ReadStep::Stalled { got: 1 });
    assert_eq!(payload_step(3, 10, false, ReadEvent::Progress(7), false), ReadStep::Complete);
    assert_eq!(payload_step(3, 10, true, ReadEvent::Transient, true), ReadStep::Stalled { got: 3 });
    assert_eq!(
        payload_step(3, 10, true, ReadEvent::Progress(1), false),
        ReadStep::Continue { read: 4, stalling: false }
    );
}

#[test]
fn read_frame_into_decodes_consecutive_frames() {
    let bytes = vec![2, 11, b'h', b'i', 1, 10, 0xAA];
    let mut pos = 0usize;
    let mut buf: Vec<u8> = Vec::new();
    assert_eq!(read_frame_into(&bytes, &mut pos, &mut buf).unwrap(), Some((StreamMsgType::Error, 2)));
    assert_eq!(&buf[..2], b"hi");
    assert_eq!(read_frame_into(&bytes, &mut pos, &mut buf).unwrap(), Some((StreamMsgType::Ping, 1)));
    assert_eq!(&buf[..1], &[0xAA]);
    assert_eq!(read_frame_into(&bytes, &mut pos, &mut buf).unwrap(), None);
}

#[test]
fn stall_clock_arms_on_an_in_flight_stall_and_disarms_on_progress() {
    let mut clock = StallClock::new(20);
    assert!(!clock.expired_after(ReadEvent::Transient, false, 100));
    assert!(!clock.expired_after(ReadEvent::Transient, true, 100));
    assert!(!clock.expired_after(ReadEvent::Transient, true, 119));
    assert!(clock.expired_after(ReadEvent::Transient, true, 120));
    clock.follow(false);
    assert!(!clock.expired_after(ReadEvent::Transient, true, 130));
    assert!(clock.expired_after(ReadEvent::Transient, true, 150));
    assert!(!clock.expired_after(ReadEvent::Progress(1), true, 1_000));
    let mut saturating = StallClock::new(u64::MAX);
    assert!(!saturating.expired_after(ReadEvent::Transient, true, 5));
}

#[test]
fn read_failure_messages() {
    assert_eq!(truncated_header_message(1), "truncated FPSS header: got 1 byte(s), expected 2");
    assert_eq!(eof_mid_payload_message(2, 4), "EOF mid-payload: got 2 of 4 bytes");
    assert_eq!(
        mid_header_stall_message(1, 20, "simulated stall"),
        "mid-header read timeout after 1 of 2 byte(s) without progress for 20 ms: simulated stall"
    );
    assert_eq!(
        mid_payload_stall_message(2, 4, 20, "simulated stall"),
        "mid-payload read timeout after 2 of 4 byte(s) without progress for 20 ms: simulated stall"
    );
}

#[test]
fn read_errors_are_sorted_by_kind() {
    let interrupted = std::io::Error::from(std::io::ErrorKind::Interrupted);
    assert_eq!(classify_read_error(&interrupted), ReadEvent::Interrupted);
    let eof = std::io::Error::from(std::io::ErrorKind::UnexpectedEof);
    assert_eq!(classify_read_error(&eof), ReadEvent::UnexpectedEof);
    let would_block = std::io::Error::from(std::io::ErrorKind::WouldBlock);
    assert_eq!(classify_read_error(&would_block), ReadEvent::Transient);
    let timed_out = std::io::Error::from(std::io::ErrorKind::TimedOut);
    assert_eq!(classify_read_error(&timed_out), ReadEvent::Transient);
    let refused = std::io::Error::from(std::io::ErrorKind::ConnectionRefused);
    assert_eq!(classify_read_error(&refused), ReadEvent::Fatal);
    let pending = std::io::Error::from_raw_os_error(ERROR_IO_PENDING);
    assert_eq!(classify_read_error(&pending), ReadEvent::Transient);
}
