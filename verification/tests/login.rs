use thetadatadx::decode::FrameBody;
use thetadatadx::enums::{RemoveReason, StreamMsgType};
use thetadatadx::error::{Error, StreamErrorKind};
use thetadatadx::events::StreamControl;
use thetadatadx::login::{login_guard, login_refusal_error, login_step, HandshakeRead, LoginResult, LoginStep};

#[test]
fn control_frames_before_metadata_are_kept_in_wire_order() {
    let mut pending: Vec<StreamControl> = Vec::new();
    for (code, body) in [
        (StreamMsgType::Connected, FrameBody::Raw(vec![])),
        (StreamMsgType::Ping, FrameBody::Raw(vec![0])),
        (StreamMsgType::Info, FrameBody::Raw(vec![1])),
        (StreamMsgType::Reconnected, FrameBody::Raw(vec![])),
        (StreamMsgType::Restart, FrameBody::Raw(vec![])),
    ] {
        assert!(matches!(login_step(HandshakeRead::Frame(code, body), &mut pending), LoginStep::Continue));
    }
    assert_eq!(
        pending,
        vec![
            StreamControl::Connected,
            StreamControl::Ping { payload: vec![0] },
            StreamControl::ReconnectedServer,
            StreamControl::Restart,
        ]
    );
    match login_step(HandshakeRead::Frame(StreamMsgType::Metadata, FrameBody::Raw(b"test-perms".to_vec())), &mut pending) {
        LoginStep::Finish(Ok(LoginResult::Success(p))) => assert_eq!(p, "test-perms"),
        _ => panic!("expected success"),
    }
    assert_eq!(pending.len(), 4);
}

#[test]
fn disconnect_and_error_finish_the_handshake() {
    let mut pending: Vec<StreamControl> = Vec::new();
    match login_step(
        HandshakeRead::Frame(
            StreamMsgType::Disconnected,
            FrameBody::Disconnect { reason: RemoveReason::InvalidCredentials, permanent: true },
        ),
        &mut pending,
    ) {
        LoginStep::Finish(Ok(LoginResult::Disconnected(r))) => assert_eq!(r, RemoveReason::InvalidCredentials),
        _ => panic!("expected a refused login"),
    }
    match login_step(HandshakeRead::Frame(StreamMsgType::Error, FrameBody::Raw(b"nope".to_vec())), &mut pending) {
        LoginStep::Finish(Err(Error::Stream { kind, message })) => {
            assert_eq!(kind, StreamErrorKind::ConnectionRefused);
            assert_eq!(message, "server error during login: nope");
        }
        _ => panic!("expected an error"),
    }
    match login_step(HandshakeRead::Eof, &mut pending) {
        LoginStep::Finish(Err(Error::Stream { kind, message })) => {
            assert_eq!(kind, StreamErrorKind::Disconnected);
            assert_eq!(message, "connection closed during login handshake");
        }
        _ => panic!("expected an error"),
    }
    assert!(matches!(login_step(HandshakeRead::SkippedUnknown, &mut pending), LoginStep::Continue));
    assert!(pending.is_empty());
}

#[test]
fn guard_prefers_shutdown_over_timeout() {
    match login_guard(true, true, 10_000) {
        Some(Error::Stream { kind, message }) => {
            assert_eq!(kind, StreamErrorKind::Disconnected);
            assert_eq!(message, "login aborted: client shutting down");
        }
        other => panic!("{other:?}"),
    }
    match login_guard(false, true, 10_000) {
        Some(Error::Stream { kind, message }) => {
            assert_eq!(kind, StreamErrorKind::Timeout);
            assert_eq!(message, "login handshake timed out after 10000ms without METADATA");
        }
        other => panic!("{other:?}"),
    }
    assert!(login_guard(false, false, 10_000).is_none());
}

#[test]
fn refused_login_is_an_auth_error_only_for_credential_reasons() {
    match login_refusal_error(RemoveReason::InvalidCredentials) {
        Error::Auth { message } => assert_eq!(message, "FPSS server rejected login: InvalidCredentials"),
        other => panic!("{other:?}"),
    }
    match login_refusal_error(RemoveReason::InvalidCredentialsNullUser) {
        Error::Auth { message } => assert_eq!(message, "FPSS server rejected login: InvalidCredentialsNullUser"),
        other => panic!("{other:?}"),
    }
    match login_refusal_error(RemoveReason::TooManyRequests) {
        Error::Stream { kind, message } => {
            assert_eq!(kind, StreamErrorKind::Disconnected);
            assert_eq!(message, "server rejected login: TooManyRequests");
        }
        other => panic!("{other:?}"),
    }
}
