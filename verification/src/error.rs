//! The library's error types and the conversions between them.

use vstd::prelude::*;
use vstd::string::StringExecFns;

use crate::text::{chars_of, nat_digits, unsigned_decimal_string};

verus! {

/// The I/O error type of the standard library, carried through opaquely.
#[verifier::external_type_specification]
#[verifier::external_body]
pub struct ExIoError(std::io::Error);

/// Category of a streaming failure.
#[derive(Debug, Clone, Copy, PartialEq, Eq, Structural)]
pub enum StreamErrorKind {
    ConnectionRefused,
    Timeout,
    ProtocolError,
    Disconnected,
    TooManyRequests,
    ReentrantDrain,
}

/// Errors returned by the streaming and decoding surface.
#[derive(Debug)]
pub enum Error {
    /// A streaming failure of a given category, with a human-readable detail.
    Stream { kind: StreamErrorKind, message: String },
    /// Authentication was refused.
    Auth { message: String },
    /// An I/O error from the underlying byte source or sink.
    Io(std::io::Error),
    /// A deadline passed.
    Timeout { duration_ms: u64 },
    /// A configuration value was rejected.
    Config { field: String, message: String },
}

/// Typed errors of the streaming client surface, each a failure category
/// with a human-readable detail.
#[derive(Debug, Clone, PartialEq, Eq)]
pub enum StreamError {
    /// No server could be reached.
    ConnectionRefused(String),
    /// A connect, login or read deadline passed.
    Timeout(String),
    /// The wire protocol was violated.
    Protocol(String),
    /// The server closed the connection.
    Disconnected(String),
    /// The server asked the client to back off.
    RateLimited(String),
    /// The credentials were refused.
    AuthenticationFailed(String),
    /// A builder value was rejected.
    Config(String),
    /// An internal supervisor thread ended unexpectedly.
    DispatcherFailed(String),
    /// A drain was entered while another drain held the staging state.
    ReentrantDrain(String),
    /// An I/O error on the socket.
    Io(String),
}

/// The prefix that marks a dispatcher failure carried as a disconnect.
pub open spec fn dispatcher_prefix() -> Seq<char> {
    "dispatcher failed: "@
}

/// `std::io::Error::other(message)`: an I/O error of kind `Other` carrying
/// `message`.
#[verifier::external_body]
fn io_error_other(message: String) -> (r: std::io::Error) {
    std::io::Error::other(message)
}

/// The display text of an I/O error (`to_string`); what it says depends on
/// the error's source, so nothing is stated of it.
#[verifier::external_body]
fn io_error_text(e: &std::io::Error) -> (r: String) {
    e.to_string()
}

/// Whether `r` is the umbrella error of streaming error `e`.
pub open spec fn umbrella_of(e: StreamError, r: Error) -> bool {
    match e {
        StreamError::ConnectionRefused(m) => r == Error::Stream { kind: StreamErrorKind::ConnectionRefused, message: m },
        StreamError::Timeout(m) => r == Error::Stream { kind: StreamErrorKind::Timeout, message: m },
        StreamError::Protocol(m) => r == Error::Stream { kind: StreamErrorKind::ProtocolError, message: m },
        StreamError::Disconnected(m) => r == Error::Stream { kind: StreamErrorKind::Disconnected, message: m },
        StreamError::RateLimited(m) => r == Error::Stream { kind: StreamErrorKind::TooManyRequests, message: m },
        StreamError::AuthenticationFailed(m) => r == Error::Auth { message: m },
        StreamError::DispatcherFailed(m) => r matches Error::Stream { kind, message } && kind
            == StreamErrorKind::Disconnected && message@ == dispatcher_prefix() + m@,
        StreamError::ReentrantDrain(m) => r == Error::Stream { kind: StreamErrorKind::ReentrantDrain, message: m },
        StreamError::Config(m) => r matches Error::Config { field, message } && field@ == "fpss"@ && message
            == m,
        StreamError::Io(_) => r is Io,
    }
}

/// Whether `r` is the streaming error an umbrella error `e` is categorised
/// as.
pub open spec fn category_of(e: Error, r: StreamError) -> bool {
    match e {
        Error::Stream { kind, message } => match kind {
            StreamErrorKind::ConnectionRefused => r == StreamError::ConnectionRefused(message),
            StreamErrorKind::Timeout => r == StreamError::Timeout(message),
            StreamErrorKind::ProtocolError => r == StreamError::Protocol(message),
            StreamErrorKind::Disconnected => if message@.len() >= dispatcher_prefix().len()
                && message@.take(dispatcher_prefix().len() as int) == dispatcher_prefix() {
                r matches StreamError::DispatcherFailed(p) && p@ == message@.skip(dispatcher_prefix().len() as int)
            } else {
                r == StreamError::Disconnected(message)
            },
            StreamErrorKind::TooManyRequests => r == StreamError::RateLimited(message),
            StreamErrorKind::ReentrantDrain => r == StreamError::ReentrantDrain(message),
        },
        Error::Auth { message } => r == StreamError::AuthenticationFailed(message),
        Error::Io(_) => r is Io,
        Error::Timeout { duration_ms } => r matches StreamError::Timeout(m) && m@ == "deadline exceeded after "@
            + nat_digits(duration_ms as nat) + "ms"@,
        Error::Config { message, .. } => r == StreamError::Config(message),
    }
}

impl Error {
    /// The umbrella error of a streaming error: each category maps onto its
    /// stream-error kind, a refused login onto `Auth`, a builder error onto
    /// a `Config` error of field `fpss`, an I/O error onto an `Io` error with
    /// the same text, and a dispatcher failure onto a disconnect whose
    /// message carries the `dispatcher failed: ` prefix.
    pub fn from_stream_error(e: StreamError) -> (r: Error)
        ensures
            umbrella_of(e, r),
    {
        match e {
            StreamError::ConnectionRefused(message) => Error::Stream { kind: StreamErrorKind::ConnectionRefused, message },
            StreamError::Timeout(message) => Error::Stream { kind: StreamErrorKind::Timeout, message },
            StreamError::Protocol(message) => Error::Stream { kind: StreamErrorKind::ProtocolError, message },
            StreamError::Disconnected(message) => Error::Stream { kind: StreamErrorKind::Disconnected, message },
            StreamError::RateLimited(message) => Error::Stream { kind: StreamErrorKind::TooManyRequests, message },
            StreamError::AuthenticationFailed(message) => Error::Auth { message },
            StreamError::DispatcherFailed(message) => {
                let mut text = "dispatcher failed: ".to_owned();
                text.append(message.as_str());
                Error::Stream { kind: StreamErrorKind::Disconnected, message: text }
            },
            StreamError::ReentrantDrain(message) => Error::Stream { kind: StreamErrorKind::ReentrantDrain, message },
            StreamError::Config(message) => Error::Config { field: "fpss".to_owned(), message },
            StreamError::Io(message) => Error::Io(io_error_other(message)),
        }
    }
}

/// Whether `message` starts with the dispatcher-failure prefix, and if so the
/// rest of it.
fn strip_dispatcher_prefix(message: &String) -> (r: Option<String>)
    ensures
        message@.len() >= dispatcher_prefix().len() && message@.take(dispatcher_prefix().len() as int)
            == dispatcher_prefix() ==> (r matches Some(rest) && rest@ == message@.skip(
            dispatcher_prefix().len() as int,
        )),
        !(message@.len() >= dispatcher_prefix().len() && message@.take(dispatcher_prefix().len() as int)
            == dispatcher_prefix()) ==> r is None,
{
    let prefix = "dispatcher failed: ";
    let p = chars_of(prefix);
    let v = chars_of(message.as_str());
    proof {
        reveal_strlit("dispatcher failed: ");
    }
    if v.len() < p.len() {
        return None;
    }
    let mut i: usize = 0;
    while i < p.len()
        invariant
            i <= p@.len() <= v@.len(),
            p@ == dispatcher_prefix(),
            v@ == message@,
            forall|j: int| 0 <= j < i ==> v@[j] == p@[j],
        decreases p@.len() - i,
    {
        if v[i] != p[i] {
            assert(v@.take(p@.len() as int)[i as int] != p@[i as int]);
            return None;
        }
        i = i + 1;
    }
    assert(v@.take(p@.len() as int) =~= p@);
    let rest = message.as_str().substring_char(p.len(), v.len());
    Some(rest.to_owned())
}

impl StreamError {
    /// Best-effort categorisation of an umbrella error: stream errors map
    /// back by kind (a disconnect carrying the `dispatcher failed: ` prefix
    /// becomes `DispatcherFailed` with the rest of the message), a refused
    /// login becomes `AuthenticationFailed`, an I/O error `Io`, a deadline
    /// `Timeout`, a configuration error `Config`.
    pub fn from_error(e: Error) -> (r: StreamError)
        ensures
            category_of(e, r),
    {
        match e {
            Error::Stream { kind, message } => match kind {
                StreamErrorKind::ConnectionRefused => StreamError::ConnectionRefused(message),
                StreamErrorKind::Timeout => StreamError::Timeout(message),
                StreamErrorKind::ProtocolError => StreamError::Protocol(message),
                StreamErrorKind::Disconnected => match strip_dispatcher_prefix(&message) {
                    Some(rest) => StreamError::DispatcherFailed(rest),
                    None => StreamError::Disconnected(message),
                },
                StreamErrorKind::TooManyRequests => StreamError::RateLimited(message),
                StreamErrorKind::ReentrantDrain => StreamError::ReentrantDrain(message),
            },
            Error::Auth { message } => StreamError::AuthenticationFailed(message),
            Error::Io(io) => StreamError::Io(io_error_text(&io)),
            Error::Timeout { duration_ms } => {
                let mut text = "deadline exceeded after ".to_owned();
                let millis = unsigned_decimal_string(duration_ms);
                text.append(millis.as_str());
                text.append("ms");
                StreamError::Timeout(text)
            },
            Error::Config { message, .. } => StreamError::Config(message),
        }
    }
}

/// A streaming error converted to the umbrella error and back keeps its
/// category and its message, except for an I/O error (whose text is the
/// synthesised I/O error's) and a disconnect whose own message starts with
/// the dispatcher-failure prefix (which comes back as a dispatcher failure).
pub proof fn stream_error_round_trip(e: StreamError, mid: Error, back: StreamError)
    requires
        umbrella_of(e, mid),
        category_of(mid, back),
    ensures
        !(e is Io) && !(e matches StreamError::Disconnected(m) && m@.len() >= dispatcher_prefix().len()
            && m@.take(dispatcher_prefix().len() as int) == dispatcher_prefix()) ==> back == e || (
        e matches StreamError::DispatcherFailed(m) && back matches StreamError::DispatcherFailed(b) && b@ == m@),
        e is Io ==> back is Io,
{
    if let StreamError::DispatcherFailed(m) = e {
        if let Error::Stream { kind, message } = mid {
            assert(message@.take(dispatcher_prefix().len() as int) =~= dispatcher_prefix());
            assert(message@.skip(dispatcher_prefix().len() as int) =~= m@);
        }
    }
}

} // verus!
