//! Typed events a decoded stream frame produces.

use vstd::prelude::*;

use crate::contract::Contract;
use crate::enums::{RemoveReason, StreamResponseType};
use crate::price::Price;

verus! {

/// Control-plane and lifecycle events.
#[derive(Debug, Clone, PartialEq, Eq)]
pub enum StreamControl {
    /// Login accepted; carries the server's opaque permissions bundle.
    LoginSuccess { permissions: String },
    /// The server bound a wire contract id to a contract.
    ContractAssigned { id: i32, contract: Contract },
    /// The server answered the subscribe or unsubscribe with `req_id`.
    ReqResponse { req_id: i32, result: StreamResponseType },
    /// Market open (START).
    MarketOpen,
    /// Market close (STOP).
    MarketClose,
    /// A human-readable server error message.
    ServerError { message: String },
    /// The server disconnected this session.
    Disconnected { reason: RemoveReason },
    /// Transport connection acknowledgement.
    Connected,
    /// Server heartbeat, with its raw payload.
    Ping { payload: Vec<u8> },
    /// The server re-established its upstream session.
    ReconnectedServer,
    /// The server restarted its stream.
    Restart,
    /// A control frame could not be parsed.
    Error { message: String },
    /// A frame whose code has no typed event, with its raw payload.
    UnknownFrame { code: u8, payload: Vec<u8> },
}

/// Market-data events. Prices are validated wire prices.
#[derive(Debug, Clone, PartialEq, Eq)]
pub enum StreamData {
    Quote {
        contract: Contract,
        ms_of_day: i32,
        bid_size: i32,
        bid_exchange: i32,
        bid: Price,
        bid_condition: i32,
        ask_size: i32,
        ask_exchange: i32,
        ask: Price,
        ask_condition: i32,
        date: i32,
        received_at_ns: u64,
    },
    Trade {
        contract: Contract,
        ms_of_day: i32,
        sequence: i32,
        size: i32,
        condition: i32,
        price: Price,
        exchange: i32,
        date: i32,
        received_at_ns: u64,
    },
    OpenInterest {
        contract: Contract,
        ms_of_day: i32,
        open_interest: i32,
        date: i32,
        received_at_ns: u64,
    },
    Ohlcvc {
        contract: Contract,
        ms_of_day: i32,
        open: Price,
        high: Price,
        low: Price,
        close: Price,
        volume: i64,
        count: i64,
        date: i32,
        received_at_ns: u64,
    },
    MarketValue {
        contract: Contract,
        ms_of_day: i32,
        market_bid: Price,
        market_ask: Price,
        market_price: Price,
        date: i32,
        received_at_ns: u64,
    },
}

/// A user-visible streaming event: market data or a control notification.
#[derive(Debug, Clone, PartialEq, Eq)]
pub enum StreamEvent {
    Data(StreamData),
    Control(StreamControl),
}

/// What one decoded frame yields.
#[derive(Debug, Clone, PartialEq, Eq)]
pub enum FpssEventInternal {
    Data(StreamData),
    Control(StreamControl),
    /// A market-data frame that could not be decoded (corrupt or truncated
    /// FIT row, unknown row width, or out-of-range price type).
    Unparseable,
}

} // verus!
