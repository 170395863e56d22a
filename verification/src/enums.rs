//! Wire enum taxonomy for the streaming data layer.
//!
//! Each enum mirrors a numeric (or short-text) code carried on the wire and
//! pairs a strict `from_code` resolver with a symbolic string form. Unknown
//! codes resolve to `None` (or a documented sentinel), never to a guess.

use vstd::prelude::*;

use crate::text::str_eq;

verus! {

/// Security type identifier.
///
/// `Unknown` is a client-side sentinel for a contract whose shape has not been
/// resolved yet; it has no wire code and `from_code` never yields it.
#[derive(Debug, Clone, Copy, PartialEq, Eq, Structural, Hash)]
pub enum SecType {
    Stock,
    Option,
    Index,
    Rate,
    Unknown,
}

/// Wire code of a security type (`Unknown` carries the sentinel `-1`).
pub open spec fn sec_type_code(t: SecType) -> int {
    match t {
        SecType::Stock => 0,
        SecType::Option => 1,
        SecType::Index => 2,
        SecType::Rate => 3,
        SecType::Unknown => -1,
    }
}

/// The security type a wire code names, if any.
pub open spec fn sec_type_from_code(code: int) -> Option<SecType> {
    if code == 0 {
        Some(SecType::Stock)
    } else if code == 1 {
        Some(SecType::Option)
    } else if code == 2 {
        Some(SecType::Index)
    } else if code == 3 {
        Some(SecType::Rate)
    } else {
        None
    }
}

/// Upper-case symbolic name of a security type.
pub open spec fn sec_type_name(t: SecType) -> Seq<char> {
    match t {
        SecType::Stock => "STOCK"@,
        SecType::Option => "OPTION"@,
        SecType::Index => "INDEX"@,
        SecType::Rate => "RATE"@,
        SecType::Unknown => "UNKNOWN"@,
    }
}

impl SecType {
    /// Resolve a wire security-type code; `None` for any other code,
    /// including the sentinel `-1`.
    pub fn from_code(code: i32) -> (r: Option<SecType>)
        ensures
            r == sec_type_from_code(code as int),
    {
        match code {
            0 => Some(SecType::Stock),
            1 => Some(SecType::Option),
            2 => Some(SecType::Index),
            3 => Some(SecType::Rate),
            _ => None,
        }
    }

    /// Wire code of this security type (`-1` for `Unknown`).
    pub fn code(&self) -> (r: i32)
        ensures
            r as int == sec_type_code(*self),
    {
        match self {
            SecType::Stock => 0,
            SecType::Option => 1,
            SecType::Index => 2,
            SecType::Rate => 3,
            SecType::Unknown => -1,
        }
    }

    /// Upper-case symbolic name (`"STOCK"`, `"OPTION"`, ...).
    pub fn as_str(&self) -> (r: &'static str)
        ensures
            r@ == sec_type_name(*self),
    {
        match self {
            SecType::Stock => "STOCK",
            SecType::Option => "OPTION",
            SecType::Index => "INDEX",
            SecType::Rate => "RATE",
            SecType::Unknown => "UNKNOWN",
        }
    }
}

/// Streaming message types carried in the frame header's code byte.
#[derive(Debug, Clone, Copy, PartialEq, Eq, Structural, Hash)]
pub enum StreamMsgType {
    Credentials,
    SessionToken,
    Info,
    Metadata,
    Connected,
    Ping,
    Error,
    Disconnected,
    Reconnected,
    Contract,
    Quote,
    Trade,
    OpenInterest,
    Ohlcvc,
    MarketValue,
    Start,
    Restart,
    Stop,
    ReqResponse,
    RemoveQuote,
    RemoveTrade,
    RemoveOpenInterest,
    RemoveMarketValue,
}

/// Wire code byte of a message type.
pub open spec fn msg_type_code(t: StreamMsgType) -> u8 {
    match t {
        StreamMsgType::Credentials => 0,
        StreamMsgType::SessionToken => 1,
        StreamMsgType::Info => 2,
        StreamMsgType::Metadata => 3,
        StreamMsgType::Connected => 4,
        StreamMsgType::Ping => 10,
        StreamMsgType::Error => 11,
        StreamMsgType::Disconnected => 12,
        StreamMsgType::Reconnected => 13,
        StreamMsgType::Contract => 20,
        StreamMsgType::Quote => 21,
        StreamMsgType::Trade => 22,
        StreamMsgType::OpenInterest => 23,
        StreamMsgType::Ohlcvc => 24,
        StreamMsgType::MarketValue => 25,
        StreamMsgType::Start => 30,
        StreamMsgType::Restart => 31,
        StreamMsgType::Stop => 32,
        StreamMsgType::ReqResponse => 40,
        StreamMsgType::RemoveQuote => 51,
        StreamMsgType::RemoveTrade => 52,
        StreamMsgType::RemoveOpenInterest => 53,
        StreamMsgType::RemoveMarketValue => 54,
    }
}

/// The message type a code byte names, if any.
pub open spec fn msg_type_from_code(code: u8) -> Option<StreamMsgType> {
    if code == 0 {
        Some(StreamMsgType::Credentials)
    } else if code == 1 {
        Some(StreamMsgType::SessionToken)
    } else if code == 2 {
        Some(StreamMsgType::Info)
    } else if code == 3 {
        Some(StreamMsgType::Metadata)
    } else if code == 4 {
        Some(StreamMsgType::Connected)
    } else if code == 10 {
        Some(StreamMsgType::Ping)
    } else if code == 11 {
        Some(StreamMsgType::Error)
    } else if code == 12 {
        Some(StreamMsgType::Disconnected)
    } else if code == 13 {
        Some(StreamMsgType::Reconnected)
    } else if code == 20 {
        Some(StreamMsgType::Contract)
    } else if code == 21 {
        Some(StreamMsgType::Quote)
    } else if code == 22 {
        Some(StreamMsgType::Trade)
    } else if code == 23 {
        Some(StreamMsgType::OpenInterest)
    } else if code == 24 {
        Some(StreamMsgType::Ohlcvc)
    } else if code == 25 {
        Some(StreamMsgType::MarketValue)
    } else if code == 30 {
        Some(StreamMsgType::Start)
    } else if code == 31 {
        Some(StreamMsgType::Restart)
    } else if code == 32 {
        Some(StreamMsgType::Stop)
    } else if code == 40 {
        Some(StreamMsgType::ReqResponse)
    } else if code == 51 {
        Some(StreamMsgType::RemoveQuote)
    } else if code == 52 {
        Some(StreamMsgType::RemoveTrade)
    } else if code == 53 {
        Some(StreamMsgType::RemoveOpenInterest)
    } else if code == 54 {
        Some(StreamMsgType::RemoveMarketValue)
    } else {
        None
    }
}

impl StreamMsgType {
    /// Resolve a wire code byte; `None` for an unknown code.
    pub fn from_code(code: u8) -> (r: Option<StreamMsgType>)
        ensures
            r == msg_type_from_code(code),
    {
        match code {
            0 => Some(StreamMsgType::Credentials),
            1 => Some(StreamMsgType::SessionToken),
            2 => Some(StreamMsgType::Info),
            3 => Some(StreamMsgType::Metadata),
            4 => Some(StreamMsgType::Connected),
            10 => Some(StreamMsgType::Ping),
            11 => Some(StreamMsgType::Error),
            12 => Some(StreamMsgType::Disconnected),
            13 => Some(StreamMsgType::Reconnected),
            20 => Some(StreamMsgType::Contract),
            21 => Some(StreamMsgType::Quote),
            22 => Some(StreamMsgType::Trade),
            23 => Some(StreamMsgType::OpenInterest),
            24 => Some(StreamMsgType::Ohlcvc),
            25 => Some(StreamMsgType::MarketValue),
            30 => Some(StreamMsgType::Start),
            31 => Some(StreamMsgType::Restart),
            32 => Some(StreamMsgType::Stop),
            40 => Some(StreamMsgType::ReqResponse),
            51 => Some(StreamMsgType::RemoveQuote),
            52 => Some(StreamMsgType::RemoveTrade),
            53 => Some(StreamMsgType::RemoveOpenInterest),
            54 => Some(StreamMsgType::RemoveMarketValue),
            _ => None,
        }
    }

    /// Wire code byte of this message type.
    pub fn code(&self) -> (r: u8)
        ensures
            r == msg_type_code(*self),
    {
        match self {
            StreamMsgType::Credentials => 0,
            StreamMsgType::SessionToken => 1,
            StreamMsgType::Info => 2,
            StreamMsgType::Metadata => 3,
            StreamMsgType::Connected => 4,
            StreamMsgType::Ping => 10,
            StreamMsgType::Error => 11,
            StreamMsgType::Disconnected => 12,
            StreamMsgType::Reconnected => 13,
            StreamMsgType::Contract => 20,
            StreamMsgType::Quote => 21,
            StreamMsgType::Trade => 22,
            StreamMsgType::OpenInterest => 23,
            StreamMsgType::Ohlcvc => 24,
            StreamMsgType::MarketValue => 25,
            StreamMsgType::Start => 30,
            StreamMsgType::Restart => 31,
            StreamMsgType::Stop => 32,
            StreamMsgType::ReqResponse => 40,
            StreamMsgType::RemoveQuote => 51,
            StreamMsgType::RemoveTrade => 52,
            StreamMsgType::RemoveOpenInterest => 53,
            StreamMsgType::RemoveMarketValue => 54,
        }
    }
}

/// Streaming subscription response outcome.
#[derive(Debug, Clone, Copy, PartialEq, Eq, Structural)]
pub enum StreamResponseType {
    Subscribed,
    Error,
    MaxStreamsReached,
    InvalidPerms,
}

/// Stream-verification token an outcome is published as.
pub open spec fn response_wire_name(t: StreamResponseType) -> Seq<char> {
    match t {
        StreamResponseType::Subscribed => "SUBSCRIBED"@,
        StreamResponseType::Error => "ERROR"@,
        StreamResponseType::MaxStreamsReached => "MAX_STREAMS_REACHED"@,
        StreamResponseType::InvalidPerms => "INVALID_PERMS"@,
    }
}

impl StreamResponseType {
    /// The fixed wire token (`SUBSCRIBED` / `ERROR` / `MAX_STREAMS_REACHED` /
    /// `INVALID_PERMS`).
    pub fn as_wire_str(self) -> (r: &'static str)
        ensures
            r@ == response_wire_name(self),
    {
        match self {
            StreamResponseType::Subscribed => "SUBSCRIBED",
            StreamResponseType::Error => "ERROR",
            StreamResponseType::MaxStreamsReached => "MAX_STREAMS_REACHED",
            StreamResponseType::InvalidPerms => "INVALID_PERMS",
        }
    }

    /// The display text: the wire token.
    pub fn to_string(&self) -> (r: String)
        ensures
            r@ == response_wire_name(*self),
    {
        self.as_wire_str().to_owned()
    }
}

/// Disconnect reason codes.
#[derive(Debug, Clone, Copy, PartialEq, Eq, Structural)]
pub enum RemoveReason {
    Unspecified,
    InvalidCredentials,
    InvalidLoginValues,
    InvalidLoginSize,
    GeneralValidationError,
    TimedOut,
    ClientForcedDisconnect,
    AccountAlreadyConnected,
    SessionTokenExpired,
    InvalidSessionToken,
    FreeAccount,
    TooManyRequests,
    NoStartDate,
    LoginTimedOut,
    ServerRestarting,
    SessionTokenNotFound,
    ServerUserDoesNotExist,
    InvalidCredentialsNullUser,
}

/// Wire code of a disconnect reason (`Unspecified` carries `-1`).
pub open spec fn remove_reason_code(r: RemoveReason) -> int {
    match r {
        RemoveReason::Unspecified => -1,
        RemoveReason::InvalidCredentials => 0,
        RemoveReason::InvalidLoginValues => 1,
        RemoveReason::InvalidLoginSize => 2,
        RemoveReason::GeneralValidationError => 3,
        RemoveReason::TimedOut => 4,
        RemoveReason::ClientForcedDisconnect => 5,
        RemoveReason::AccountAlreadyConnected => 6,
        RemoveReason::SessionTokenExpired => 7,
        RemoveReason::InvalidSessionToken => 8,
        RemoveReason::FreeAccount => 9,
        RemoveReason::TooManyRequests => 12,
        RemoveReason::NoStartDate => 13,
        RemoveReason::LoginTimedOut => 14,
        RemoveReason::ServerRestarting => 15,
        RemoveReason::SessionTokenNotFound => 16,
        RemoveReason::ServerUserDoesNotExist => 17,
        RemoveReason::InvalidCredentialsNullUser => 18,
    }
}

/// The reason a wire code names; every code outside the table is
/// `Unspecified`.
pub open spec fn remove_reason_from_code(code: int) -> RemoveReason {
    if code == 0 {
        RemoveReason::InvalidCredentials
    } else if code == 1 {
        RemoveReason::InvalidLoginValues
    } else if code == 2 {
        RemoveReason::InvalidLoginSize
    } else if code == 3 {
        RemoveReason::GeneralValidationError
    } else if code == 4 {
        RemoveReason::TimedOut
    } else if code == 5 {
        RemoveReason::ClientForcedDisconnect
    } else if code == 6 {
        RemoveReason::AccountAlreadyConnected
    } else if code == 7 {
        RemoveReason::SessionTokenExpired
    } else if code == 8 {
        RemoveReason::InvalidSessionToken
    } else if code == 9 {
        RemoveReason::FreeAccount
    } else if code == 12 {
        RemoveReason::TooManyRequests
    } else if code == 13 {
        RemoveReason::NoStartDate
    } else if code == 14 {
        RemoveReason::LoginTimedOut
    } else if code == 15 {
        RemoveReason::ServerRestarting
    } else if code == 16 {
        RemoveReason::SessionTokenNotFound
    } else if code == 17 {
        RemoveReason::ServerUserDoesNotExist
    } else if code == 18 {
        RemoveReason::InvalidCredentialsNullUser
    } else {
        RemoveReason::Unspecified
    }
}

/// UpperCamelCase symbolic name of a disconnect reason.
pub open spec fn remove_reason_name(r: RemoveReason) -> Seq<char> {
    match r {
        RemoveReason::Unspecified => "Unspecified"@,
        RemoveReason::InvalidCredentials => "InvalidCredentials"@,
        RemoveReason::InvalidLoginValues => "InvalidLoginValues"@,
        RemoveReason::InvalidLoginSize => "InvalidLoginSize"@,
        RemoveReason::GeneralValidationError => "GeneralValidationError"@,
        RemoveReason::TimedOut => "TimedOut"@,
        RemoveReason::ClientForcedDisconnect => "ClientForcedDisconnect"@,
        RemoveReason::AccountAlreadyConnected => "AccountAlreadyConnected"@,
        RemoveReason::SessionTokenExpired => "SessionTokenExpired"@,
        RemoveReason::InvalidSessionToken => "InvalidSessionToken"@,
        RemoveReason::FreeAccount => "FreeAccount"@,
        RemoveReason::TooManyRequests => "TooManyRequests"@,
        RemoveReason::NoStartDate => "NoStartDate"@,
        RemoveReason::LoginTimedOut => "LoginTimedOut"@,
        RemoveReason::ServerRestarting => "ServerRestarting"@,
        RemoveReason::SessionTokenNotFound => "SessionTokenNotFound"@,
        RemoveReason::ServerUserDoesNotExist => "ServerUserDoesNotExist"@,
        RemoveReason::InvalidCredentialsNullUser => "InvalidCredentialsNullUser"@,
    }
}

/// SCREAMING_SNAKE_CASE wire token of a disconnect reason.
pub open spec fn remove_reason_wire_name(r: RemoveReason) -> Seq<char> {
    match r {
        RemoveReason::Unspecified => "UNSPECIFIED"@,
        RemoveReason::InvalidCredentials => "INVALID_CREDENTIALS"@,
        RemoveReason::InvalidLoginValues => "INVALID_LOGIN_VALUES"@,
        RemoveReason::InvalidLoginSize => "INVALID_LOGIN_SIZE"@,
        RemoveReason::GeneralValidationError => "GENERAL_VALIDATION_ERROR"@,
        RemoveReason::TimedOut => "TIMED_OUT"@,
        RemoveReason::ClientForcedDisconnect => "CLIENT_FORCED_DISCONNECT"@,
        RemoveReason::AccountAlreadyConnected => "ACCOUNT_ALREADY_CONNECTED"@,
        RemoveReason::SessionTokenExpired => "SESSION_TOKEN_EXPIRED"@,
        RemoveReason::InvalidSessionToken => "INVALID_SESSION_TOKEN"@,
        RemoveReason::FreeAccount => "FREE_ACCOUNT"@,
        RemoveReason::TooManyRequests => "TOO_MANY_REQUESTS"@,
        RemoveReason::NoStartDate => "NO_START_DATE"@,
        RemoveReason::LoginTimedOut => "LOGIN_TIMED_OUT"@,
        RemoveReason::ServerRestarting => "SERVER_RESTARTING"@,
        RemoveReason::SessionTokenNotFound => "SESSION_TOKEN_NOT_FOUND"@,
        RemoveReason::ServerUserDoesNotExist => "SERVER_USER_DOES_NOT_EXIST"@,
        RemoveReason::InvalidCredentialsNullUser => "INVALID_CREDENTIALS_NULL_USER"@,
    }
}

impl RemoveReason {
    /// Resolve a wire code; every unknown code maps to `Unspecified`.
    pub fn from_code(code: i16) -> (r: RemoveReason)
        ensures
            r == remove_reason_from_code(code as int),
    {
        match code {
            0 => RemoveReason::InvalidCredentials,
            1 => RemoveReason::InvalidLoginValues,
            2 => RemoveReason::InvalidLoginSize,
            3 => RemoveReason::GeneralValidationError,
            4 => RemoveReason::TimedOut,
            5 => RemoveReason::ClientForcedDisconnect,
            6 => RemoveReason::AccountAlreadyConnected,
            7 => RemoveReason::SessionTokenExpired,
            8 => RemoveReason::InvalidSessionToken,
            9 => RemoveReason::FreeAccount,
            12 => RemoveReason::TooManyRequests,
            13 => RemoveReason::NoStartDate,
            14 => RemoveReason::LoginTimedOut,
            15 => RemoveReason::ServerRestarting,
            16 => RemoveReason::SessionTokenNotFound,
            17 => RemoveReason::ServerUserDoesNotExist,
            18 => RemoveReason::InvalidCredentialsNullUser,
            _ => RemoveReason::Unspecified,
        }
    }

    /// Wire code of this reason (`-1` for `Unspecified`).
    pub fn code(&self) -> (r: i16)
        ensures
            r as int == remove_reason_code(*self),
    {
        match self {
            RemoveReason::Unspecified => -1,
            RemoveReason::InvalidCredentials => 0,
            RemoveReason::InvalidLoginValues => 1,
            RemoveReason::InvalidLoginSize => 2,
            RemoveReason::GeneralValidationError => 3,
            RemoveReason::TimedOut => 4,
            RemoveReason::ClientForcedDisconnect => 5,
            RemoveReason::AccountAlreadyConnected => 6,
            RemoveReason::SessionTokenExpired => 7,
            RemoveReason::InvalidSessionToken => 8,
            RemoveReason::FreeAccount => 9,
            RemoveReason::TooManyRequests => 12,
            RemoveReason::NoStartDate => 13,
            RemoveReason::LoginTimedOut => 14,
            RemoveReason::ServerRestarting => 15,
            RemoveReason::SessionTokenNotFound => 16,
            RemoveReason::ServerUserDoesNotExist => 17,
            RemoveReason::InvalidCredentialsNullUser => 18,
        }
    }

    /// UpperCamelCase symbolic name (`"TooManyRequests"`, ...).
    pub fn as_str(&self) -> (r: &'static str)
        ensures
            r@ == remove_reason_name(*self),
    {
        match self {
            RemoveReason::Unspecified => "Unspecified",
            RemoveReason::InvalidCredentials => "InvalidCredentials",
            RemoveReason::InvalidLoginValues => "InvalidLoginValues",
            RemoveReason::InvalidLoginSize => "InvalidLoginSize",
            RemoveReason::GeneralValidationError => "GeneralValidationError",
            RemoveReason::TimedOut => "TimedOut",
            RemoveReason::ClientForcedDisconnect => "ClientForcedDisconnect",
            RemoveReason::AccountAlreadyConnected => "AccountAlreadyConnected",
            RemoveReason::SessionTokenExpired => "SessionTokenExpired",
            RemoveReason::InvalidSessionToken => "InvalidSessionToken",
            RemoveReason::FreeAccount => "FreeAccount",
            RemoveReason::TooManyRequests => "TooManyRequests",
            RemoveReason::NoStartDate => "NoStartDate",
            RemoveReason::LoginTimedOut => "LoginTimedOut",
            RemoveReason::ServerRestarting => "ServerRestarting",
            RemoveReason::SessionTokenNotFound => "SessionTokenNotFound",
            RemoveReason::ServerUserDoesNotExist => "ServerUserDoesNotExist",
            RemoveReason::InvalidCredentialsNullUser => "InvalidCredentialsNullUser",
        }
    }

    /// SCREAMING_SNAKE_CASE token published as a disconnect reason.
    pub fn as_wire_str(self) -> (r: &'static str)
        ensures
            r@ == remove_reason_wire_name(self),
    {
        match self {
            RemoveReason::Unspecified => "UNSPECIFIED",
            RemoveReason::InvalidCredentials => "INVALID_CREDENTIALS",
            RemoveReason::InvalidLoginValues => "INVALID_LOGIN_VALUES",
            RemoveReason::InvalidLoginSize => "INVALID_LOGIN_SIZE",
            RemoveReason::GeneralValidationError => "GENERAL_VALIDATION_ERROR",
            RemoveReason::TimedOut => "TIMED_OUT",
            RemoveReason::ClientForcedDisconnect => "CLIENT_FORCED_DISCONNECT",
            RemoveReason::AccountAlreadyConnected => "ACCOUNT_ALREADY_CONNECTED",
            RemoveReason::SessionTokenExpired => "SESSION_TOKEN_EXPIRED",
            RemoveReason::InvalidSessionToken => "INVALID_SESSION_TOKEN",
            RemoveReason::FreeAccount => "FREE_ACCOUNT",
            RemoveReason::TooManyRequests => "TOO_MANY_REQUESTS",
            RemoveReason::NoStartDate => "NO_START_DATE",
            RemoveReason::LoginTimedOut => "LOGIN_TIMED_OUT",
            RemoveReason::ServerRestarting => "SERVER_RESTARTING",
            RemoveReason::SessionTokenNotFound => "SESSION_TOKEN_NOT_FOUND",
            RemoveReason::ServerUserDoesNotExist => "SERVER_USER_DOES_NOT_EXIST",
            RemoveReason::InvalidCredentialsNullUser => "INVALID_CREDENTIALS_NULL_USER",
        }
    }
}

/// Market-calendar day classification, total over the vendor's vocabulary.
#[derive(Debug, Clone, Copy, PartialEq, Eq, Structural, Hash)]
pub enum CalendarStatus {
    Open,
    EarlyClose,
    FullClose,
    Weekend,
}

/// Stable cross-binding integer code of a day type.
pub open spec fn calendar_code(s: CalendarStatus) -> int {
    match s {
        CalendarStatus::Open => 0,
        CalendarStatus::EarlyClose => 1,
        CalendarStatus::FullClose => 2,
        CalendarStatus::Weekend => 3,
    }
}

/// The day type an integer code names, if any.
pub open spec fn calendar_from_code(code: int) -> Option<CalendarStatus> {
    if code == 0 {
        Some(CalendarStatus::Open)
    } else if code == 1 {
        Some(CalendarStatus::EarlyClose)
    } else if code == 2 {
        Some(CalendarStatus::FullClose)
    } else if code == 3 {
        Some(CalendarStatus::Weekend)
    } else {
        None
    }
}

/// The vendor's text for a day type.
pub open spec fn calendar_name(s: CalendarStatus) -> Seq<char> {
    match s {
        CalendarStatus::Open => "open"@,
        CalendarStatus::EarlyClose => "early_close"@,
        CalendarStatus::FullClose => "full_close"@,
        CalendarStatus::Weekend => "weekend"@,
    }
}

/// The day type whose vendor text is `text`, if any.
pub open spec fn calendar_from_text(text: Seq<char>) -> Option<CalendarStatus> {
    if text == "open"@ {
        Some(CalendarStatus::Open)
    } else if text == "early_close"@ {
        Some(CalendarStatus::EarlyClose)
    } else if text == "full_close"@ {
        Some(CalendarStatus::FullClose)
    } else if text == "weekend"@ {
        Some(CalendarStatus::Weekend)
    } else {
        None
    }
}

impl CalendarStatus {
    /// Vendor text for this day type (`"open"`, `"early_close"`,
    /// `"full_close"`, `"weekend"`).
    pub fn as_str(self) -> (r: &'static str)
        ensures
            r@ == calendar_name(self),
    {
        match self {
            CalendarStatus::Open => "open",
            CalendarStatus::EarlyClose => "early_close",
            CalendarStatus::FullClose => "full_close",
            CalendarStatus::Weekend => "weekend",
        }
    }

    /// The display text: the vendor's day-type text.
    pub fn to_string(&self) -> (r: String)
        ensures
            r@ == calendar_name(*self),
    {
        self.as_str().to_owned()
    }

    /// Parse the vendor's day-type text; `None` outside the vocabulary.
    pub fn from_wire_text(text: &str) -> (r: Option<CalendarStatus>)
        ensures
            r == calendar_from_text(text@),
    {
        if str_eq(text, "open") {
            Some(CalendarStatus::Open)
        } else if str_eq(text, "early_close") {
            Some(CalendarStatus::EarlyClose)
        } else if str_eq(text, "full_close") {
            Some(CalendarStatus::FullClose)
        } else if str_eq(text, "weekend") {
            Some(CalendarStatus::Weekend)
        } else {
            None
        }
    }

    /// Resolve an integer code; `None` outside `0..=3`.
    pub fn from_code(code: i32) -> (r: Option<CalendarStatus>)
        ensures
            r == calendar_from_code(code as int),
    {
        match code {
            0 => Some(CalendarStatus::Open),
            1 => Some(CalendarStatus::EarlyClose),
            2 => Some(CalendarStatus::FullClose),
            3 => Some(CalendarStatus::Weekend),
            _ => None,
        }
    }

    /// Integer code of this day type.
    pub fn code(self) -> (r: i32)
        ensures
            r as int == calendar_code(self),
    {
        match self {
            CalendarStatus::Open => 0,
            CalendarStatus::EarlyClose => 1,
            CalendarStatus::FullClose => 2,
            CalendarStatus::Weekend => 3,
        }
    }

    /// Whether the market trades at all on this day type.
    pub fn is_open(self) -> (r: bool)
        ensures
            r == (self == CalendarStatus::Open || self == CalendarStatus::EarlyClose),
    {
        match self {
            CalendarStatus::Open | CalendarStatus::EarlyClose => true,
            _ => false,
        }
    }
}

/// Every security type other than the `Unknown` sentinel survives a round
/// trip through its wire code, and a code resolves only to the type that
/// carries it.
pub proof fn sec_type_code_round_trip(t: SecType, code: int)
    ensures
        t != SecType::Unknown ==> sec_type_from_code(sec_type_code(t)) == Some(t),
        sec_type_from_code(code) == Some(t) ==> sec_type_code(t) == code,
        sec_type_from_code(code) != Some(SecType::Unknown),
{
}

/// Every message type survives a round trip through its code byte, and a
/// code byte resolves only to the type that carries it.
pub proof fn msg_type_code_round_trip(t: StreamMsgType, code: u8)
    ensures
        msg_type_from_code(msg_type_code(t)) == Some(t),
        msg_type_from_code(code) == Some(t) ==> msg_type_code(t) == code,
{
}

/// Every named disconnect reason survives a round trip through its wire
/// code; any code that resolves to a named reason is that reason's code.
pub proof fn remove_reason_code_round_trip(r: RemoveReason, code: int)
    ensures
        remove_reason_from_code(remove_reason_code(r)) == r,
        remove_reason_from_code(code) == r && r != RemoveReason::Unspecified
            ==> remove_reason_code(r) == code,
{
}

/// Every day type survives a round trip through its integer code and
/// through its vendor text.
pub proof fn calendar_round_trip(s: CalendarStatus, code: int)
    ensures
        calendar_from_code(calendar_code(s)) == Some(s),
        calendar_from_code(code) == Some(s) ==> calendar_code(s) == code,
        calendar_from_text(calendar_name(s)) == Some(s),
{
    reveal_strlit("open");
    reveal_strlit("early_close");
    reveal_strlit("full_close");
    reveal_strlit("weekend");
    assert("early_close"@.len() == 11 && "open"@.len() == 4);
    assert("full_close"@.len() == 10 && "weekend"@.len() == 7);
    assert("early_close"@ != "open"@);
    assert("full_close"@ != "open"@ && "full_close"@ != "early_close"@);
    assert("weekend"@ != "open"@ && "weekend"@ != "early_close"@);
    assert("weekend"@ != "full_close"@);
}

} // verus!
