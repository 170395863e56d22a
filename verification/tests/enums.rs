use thetadatadx::enums::{CalendarStatus, RemoveReason, SecType, StreamMsgType, StreamResponseType};

#[test]
fn sec_type_wire_tokens_are_exact() {
    for (sec, token) in [
        (SecType::Stock, "STOCK"),
        (SecType::Option, "OPTION"),
        (SecType::Index, "INDEX"),
        (SecType::Rate, "RATE"),
        (SecType::Unknown, "UNKNOWN"),
    ] {
        assert_eq!(sec.as_str(), token, "{sec:?}");
    }
}

#[test]
fn stream_response_wire_tokens_are_exact() {
    assert_eq!(StreamResponseType::Subscribed.as_wire_str(), "SUBSCRIBED");
    assert_eq!(StreamResponseType::Error.as_wire_str(), "ERROR");
    assert_eq!(StreamResponseType::MaxStreamsReached.as_wire_str(), "MAX_STREAMS_REACHED");
    assert_eq!(StreamResponseType::InvalidPerms.as_wire_str(), "INVALID_PERMS");
    assert_eq!(StreamResponseType::Subscribed.to_string(), "SUBSCRIBED");
}

#[test]
fn remove_reason_wire_tokens_are_exact() {
    for (reason, token) in [
        (RemoveReason::Unspecified, "UNSPECIFIED"),
        (RemoveReason::InvalidCredentials, "INVALID_CREDENTIALS"),
        (RemoveReason::InvalidLoginValues, "INVALID_LOGIN_VALUES"),
        (RemoveReason::InvalidLoginSize, "INVALID_LOGIN_SIZE"),
        (RemoveReason::GeneralValidationError, "GENERAL_VALIDATION_ERROR"),
        (RemoveReason::TimedOut, "TIMED_OUT"),
        (RemoveReason::ClientForcedDisconnect, "CLIENT_FORCED_DISCONNECT"),
        (RemoveReason::AccountAlreadyConnected, "ACCOUNT_ALREADY_CONNECTED"),
        (RemoveReason::SessionTokenExpired, "SESSION_TOKEN_EXPIRED"),
        (RemoveReason::InvalidSessionToken, "INVALID_SESSION_TOKEN"),
        (RemoveReason::FreeAccount, "FREE_ACCOUNT"),
        (RemoveReason::TooManyRequests, "TOO_MANY_REQUESTS"),
        (RemoveReason::NoStartDate, "NO_START_DATE"),
        (RemoveReason::LoginTimedOut, "LOGIN_TIMED_OUT"),
        (RemoveReason::ServerRestarting, "SERVER_RESTARTING"),
        (RemoveReason::SessionTokenNotFound, "SESSION_TOKEN_NOT_FOUND"),
        (RemoveReason::ServerUserDoesNotExist, "SERVER_USER_DOES_NOT_EXIST"),
        (RemoveReason::InvalidCredentialsNullUser, "INVALID_CREDENTIALS_NULL_USER"),
    ] {
        assert_eq!(reason.as_wire_str(), token, "{reason:?}");
    }
}

#[test]
fn sec_type_codes_round_trip() {
    for t in [SecType::Stock, SecType::Option, SecType::Index, SecType::Rate] {
        assert_eq!(SecType::from_code(t.code()), Some(t));
    }
    assert_eq!(SecType::Unknown.code(), -1);
    assert_eq!(SecType::from_code(-1), None);
    assert_eq!(SecType::from_code(7), None);
}

#[test]
fn msg_type_codes_round_trip() {
    for code in 0u8..=255 {
        if let Some(t) = StreamMsgType::from_code(code) {
            assert_eq!(t.code(), code);
        }
    }
    assert_eq!(StreamMsgType::from_code(21), Some(StreamMsgType::Quote));
    assert_eq!(StreamMsgType::from_code(5), None);
    assert_eq!(StreamMsgType::from_code(255), None);
}

#[test]
fn remove_reason_codes_round_trip() {
    assert_eq!(RemoveReason::Unspecified.code(), -1);
    assert_eq!(RemoveReason::from_code(0), RemoveReason::InvalidCredentials);
    for code in [-1i16, 0, 1, 2, 3, 4, 5, 6, 7, 8, 9, 12, 13, 14, 15, 16, 17, 18] {
        assert_eq!(RemoveReason::from_code(code).code(), code);
    }
    assert_eq!(RemoveReason::from_code(10), RemoveReason::Unspecified);
    assert_eq!(RemoveReason::from_code(999), RemoveReason::Unspecified);
}

#[test]
fn calendar_status_text_and_codes() {
    for s in [
        CalendarStatus::Open,
        CalendarStatus::EarlyClose,
        CalendarStatus::FullClose,
        CalendarStatus::Weekend,
    ] {
        assert_eq!(CalendarStatus::from_wire_text(s.as_str()), Some(s));
        assert_eq!(CalendarStatus::from_code(s.code()), Some(s));
        assert_eq!(s.to_string(), s.as_str());
    }
    assert_eq!(CalendarStatus::from_wire_text("holiday"), None);
    assert_eq!(CalendarStatus::from_code(4), None);
    assert!(CalendarStatus::Open.is_open());
    assert!(CalendarStatus::EarlyClose.is_open());
    assert!(!CalendarStatus::Weekend.is_open());
}
