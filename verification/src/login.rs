//! Login handshake decisions.
//!
//! After the credentials go out, the client reads frames until METADATA
//! (login accepted) or DISCONNECTED (login refused). Typed control frames
//! that arrive before METADATA (CONNECTED, PING, a server-side reconnect,
//! RESTART) are kept, in wire order, for replay onto the event bus once the
//! session is live. The handshake is cut off when the client shuts down or
//! its wall-clock budget runs out; shutdown wins over the timeout.
//!
//! The reading itself is the caller's: it checks [`login_guard`] before
//! each read, reads one frame, and hands it to [`login_step`] until the
//! step finishes.

use vstd::prelude::*;
use vstd::string::StringExecFns;

use crate::decode::{body_fits, raw_payload, FrameBody};
use crate::enums::{remove_reason_name, RemoveReason, StreamMsgType};
use crate::error::{Error, StreamErrorKind};
use crate::events::StreamControl;
use crate::text::{all_ascii, ascii_chars, lossy_text, nat_digits, unsigned_decimal_string, utf8_lossy};

verus! {

/// Outcome of a login handshake that the server answered.
#[derive(Debug, PartialEq, Eq)]
pub enum LoginResult {
    /// Login accepted, with the server's opaque permissions bundle.
    Success(String),
    /// Login refused, with the server's reason.
    Disconnected(RemoveReason),
}

/// What one handshake read produced.
pub enum HandshakeRead {
    /// A complete frame, its payload read for its code.
    Frame(StreamMsgType, FrameBody),
    /// A frame with an unknown code, skipped by the reader.
    SkippedUnknown,
    /// The peer closed the connection.
    Eof,
}

/// What the handshake does after a read.
pub enum LoginStep {
    /// Keep reading.
    Continue,
    /// The handshake is over.
    Finish(Result<LoginResult, Error>),
}

/// The control event a frame read before METADATA is kept as, if any.
pub open spec fn handshake_control(code: StreamMsgType, body: FrameBody) -> Option<StreamControl> {
    match code {
        StreamMsgType::Connected => Some(StreamControl::Connected),
        StreamMsgType::Ping => match body {
            FrameBody::Raw(payload) => Some(StreamControl::Ping { payload }),
            _ => None,
        },
        StreamMsgType::Reconnected => Some(StreamControl::ReconnectedServer),
        StreamMsgType::Restart => Some(StreamControl::Restart),
        _ => None,
    }
}

/// Whether a frame ends the handshake.
pub open spec fn ends_handshake(code: StreamMsgType) -> bool {
    code is Metadata || code is Disconnected || code is Error
}

/// Check made before each handshake read: a shutdown aborts the handshake,
/// and so does an exhausted wall-clock budget of `timeout_ms`.
pub fn login_guard(shutting_down: bool, deadline_passed: bool, timeout_ms: u64) -> (r: Option<Error>)
    ensures
        shutting_down ==> (r matches Some(Error::Stream { kind, message }) && kind
            == StreamErrorKind::Disconnected && message@ == "login aborted: client shutting down"@),
        !shutting_down && deadline_passed ==> (r matches Some(Error::Stream { kind, message })
            && kind == StreamErrorKind::Timeout && message@ == "login handshake timed out after "@
            + nat_digits(timeout_ms as nat) + "ms without METADATA"@),
        !shutting_down && !deadline_passed ==> r is None,
{
    if shutting_down {
        return Some(
            Error::Stream {
                kind: StreamErrorKind::Disconnected,
                message: "login aborted: client shutting down".to_owned(),
            },
        );
    }
    if deadline_passed {
        let mut message = "login handshake timed out after ".to_owned();
        let millis = unsigned_decimal_string(timeout_ms);
        message.append(millis.as_str());
        message.append("ms without METADATA");
        return Some(Error::Stream { kind: StreamErrorKind::Timeout, message });
    }
    None
}

/// Advance the handshake by one read.
///
/// METADATA finishes with `Success` and the payload text; DISCONNECTED
/// finishes with the server's reason; an ERROR frame or a closed connection
/// finishes with an error. CONNECTED, PING, a server-side reconnect and
/// RESTART are appended to `pending_control`; every other frame is ignored.
pub fn login_step(read: HandshakeRead, pending_control: &mut Vec<StreamControl>) -> (r: LoginStep)
    requires
        read matches HandshakeRead::Frame(code, body) ==> body_fits(code, body),
    ensures
        read matches HandshakeRead::Frame(code, body) ==> {
            &&& code is Metadata ==> (r matches LoginStep::Finish(Ok(LoginResult::Success(p)))
                && p@ == utf8_lossy(raw_payload(body)) && (all_ascii(raw_payload(body)) ==> p@
                == ascii_chars(raw_payload(body))))
            &&& code is Disconnected ==> (body matches FrameBody::Disconnect { reason, .. } && r
                == LoginStep::Finish(Ok(LoginResult::Disconnected(reason))))
            &&& code is Error ==> (r matches LoginStep::Finish(Err(Error::Stream { kind, message }))
                && kind == StreamErrorKind::ConnectionRefused && message@
                == "server error during login: "@ + utf8_lossy(raw_payload(body)))
            &&& !ends_handshake(code) ==> r is Continue
            &&& final(pending_control)@ == match handshake_control(code, body) {
                Some(c) => old(pending_control)@.push(c),
                None => old(pending_control)@,
            }
        },
        read is SkippedUnknown ==> r is Continue && final(pending_control)@ == old(pending_control)@,
        read is Eof ==> (r matches LoginStep::Finish(Err(Error::Stream { kind, message })) && kind
            == StreamErrorKind::Disconnected && message@ == "connection closed during login handshake"@
            && final(pending_control)@ == old(pending_control)@),
{
    match read {
        HandshakeRead::SkippedUnknown => LoginStep::Continue,
        HandshakeRead::Eof => LoginStep::Finish(
            Err(
                Error::Stream {
                    kind: StreamErrorKind::Disconnected,
                    message: "connection closed during login handshake".to_owned(),
                },
            ),
        ),
        HandshakeRead::Frame(code, body) => match code {
            StreamMsgType::Metadata => match &body {
                FrameBody::Raw(payload) => {
                    let permissions = lossy_text(payload.as_slice());
                    LoginStep::Finish(Ok(LoginResult::Success(permissions)))
                },
                _ => LoginStep::Continue,
            },
            StreamMsgType::Disconnected => match body {
                FrameBody::Disconnect { reason, .. } => LoginStep::Finish(
                    Ok(LoginResult::Disconnected(reason)),
                ),
                _ => LoginStep::Continue,
            },
            StreamMsgType::Error => match &body {
                FrameBody::Raw(payload) => {
                    let text = lossy_text(payload.as_slice());
                    let mut message = "server error during login: ".to_owned();
                    message.append(text.as_str());
                    LoginStep::Finish(
                        Err(Error::Stream { kind: StreamErrorKind::ConnectionRefused, message }),
                    )
                },
                _ => LoginStep::Continue,
            },
            StreamMsgType::Connected => {
                pending_control.push(StreamControl::Connected);
                LoginStep::Continue
            },
            StreamMsgType::Ping => match body {
                FrameBody::Raw(payload) => {
                    pending_control.push(StreamControl::Ping { payload });
                    LoginStep::Continue
                },
                _ => LoginStep::Continue,
            },
            StreamMsgType::Reconnected => {
                pending_control.push(StreamControl::ReconnectedServer);
                LoginStep::Continue
            },
            StreamMsgType::Restart => {
                pending_control.push(StreamControl::Restart);
                LoginStep::Continue
            },
            _ => LoginStep::Continue,
        },
    }
}

/// Whether a login refusal blames the credentials.
pub open spec fn is_credential_refusal(reason: RemoveReason) -> bool {
    reason is InvalidCredentials || reason is InvalidLoginValues || reason is InvalidCredentialsNullUser
}

/// The error a refused login is reported as: a refusal that blames the
/// credentials is an authentication error, any other one a disconnect, each
/// naming the server's reason.
pub fn login_refusal_error(reason: RemoveReason) -> (r: Error)
    ensures
        is_credential_refusal(reason) ==> (r matches Error::Auth { message } && message@
            == "FPSS server rejected login: "@ + remove_reason_name(reason)),
        !is_credential_refusal(reason) ==> (r matches Error::Stream { kind, message } && kind
            == StreamErrorKind::Disconnected && message@ == "server rejected login: "@
            + remove_reason_name(reason)),
{
    let name = reason.as_str();
    match reason {
        RemoveReason::InvalidCredentials | RemoveReason::InvalidLoginValues
        | RemoveReason::InvalidCredentialsNullUser => {
            let mut message = "FPSS server rejected login: ".to_owned();
            message.append(name);
            Error::Auth { message }
        },
        _ => {
            let mut message = "server rejected login: ".to_owned();
            message.append(name);
            Error::Stream { kind: StreamErrorKind::Disconnected, message }
        },
    }
}


/// Exactly the three credential reasons (invalid credentials, invalid login
/// values, a null user) make a refused login an authentication failure;
/// every other reason is reported as a disconnect.
pub proof fn credential_reasons_are_auth_failures(reason: RemoveReason)
    ensures
        is_credential_refusal(reason) <==> (reason == RemoveReason::InvalidCredentials || reason
            == RemoveReason::InvalidLoginValues || reason == RemoveReason::InvalidCredentialsNullUser),
{
}

} // verus!
