use thetadatadx::error::{Error, StreamError, StreamErrorKind};

fn round_trip(e: StreamError) -> StreamError {
    StreamError::from_error(Error::from_stream_error(e))
}

#[test]
fn stream_errors_round_trip_through_the_umbrella_error() {
    for e in [
        StreamError::ConnectionRefused("a".to_string()),
        StreamError::Timeout("b".to_string()),
        StreamError::Protocol("c".to_string()),
        StreamError::Disconnected("d".to_string()),
        StreamError::RateLimited("e".to_string()),
        StreamError::AuthenticationFailed("f".to_string()),
        StreamError::Config("g".to_string()),
        StreamError::DispatcherFailed("h".to_string()),
        StreamError::ReentrantDrain("i".to_string()),
    ] {
        assert_eq!(round_trip(e.clone()), e);
    }
    assert_eq!(round_trip(StreamError::Io("socket gone".to_string())), StreamError::Io("socket gone".to_string()));
}

#[test]
fn dispatcher_failure_travels_as_prefixed_disconnect() {
    match Error::from_stream_error(StreamError::DispatcherFailed("boom".to_string())) {
        Error::Stream { kind, message } => {
            assert_eq!(kind, StreamErrorKind::Disconnected);
            assert_eq!(message, "dispatcher failed: boom");
        }
        other => panic!("{other:?}"),
    }
    assert_eq!(
        StreamError::from_error(Error::Stream {
            kind: StreamErrorKind::Disconnected,
            message: "dispatcher failed: x".to_string()
        }),
        StreamError::DispatcherFailed("x".to_string())
    );
    assert_eq!(
        StreamError::from_error(Error::Timeout { duration_ms: 250 }),
        StreamError::Timeout("deadline exceeded after 250ms".to_string())
    );
    match Error::from_stream_error(StreamError::Config("bad".to_string())) {
        Error::Config { field, message } => {
            assert_eq!(field, "fpss");
            assert_eq!(message, "bad");
        }
        other => panic!("{other:?}"),
    }
}
