//! Frame dispatch: a wire frame and the session's decode state in, the typed
//! event the frame decodes to out.
//!
//! Data frames (quote, trade, open interest, OHLCVC, market value) arrive as
//! FIT rows and run through delta decompression before their cells are read;
//! control frames map one-to-one onto [`StreamControl`] variants. Session
//! boundaries (START, STOP, RESTART and a server-side reconnect) reset both
//! the delta baselines and the contract cache, so ticks after a boundary
//! decode as fresh absolute rows and resolve only against contracts assigned
//! after it.

use vstd::prelude::*;
use vstd::string::StringExecFns;
use vstd::hash_map::HashMapWithView;

use crate::contract::Contract;
use crate::delta::{
    absolute_tick, spec_tick_result, tick_applied, DeltaState, FitRow, TickFields, MAX_DATA_FIELDS, OHLCVC_FIELDS, OI_FIELDS,
    QUOTE_FIELDS, TRADE_FIELDS,
};
use crate::enums::{msg_type_code, RemoveReason, SecType, StreamMsgType, StreamResponseType};
use crate::events::{FpssEventInternal, StreamControl, StreamData};
use crate::framing::{is_binary_payload, is_control_byte};
use crate::market_value::{
    calculate_market_value, market_value_midpoint, spec_market_ask, spec_market_bid, spec_midpoint,
};
use crate::price::{made_price_keeps_its_cell, valid_price_type, Price};
use crate::text::{ascii_chars, ascii_string, decimal_text, lossy_text, push_decimal, utf8_lossy};

verus! {

broadcast use {vstd::std_specs::hash::group_hash_axioms, vstd::array::group_array_axioms};

/// Prefix on the symbol of an unresolved-contract sentinel: the contract a
/// tick carries when it arrives before the `CONTRACT` frame that names its
/// wire id. The decimal wire id follows the prefix (`"__pending:42"`).
pub const UNRESOLVED_CONTRACT_SYMBOL_PREFIX: &'static str = "__pending:";

/// The characters of [`UNRESOLVED_CONTRACT_SYMBOL_PREFIX`].
pub open spec fn pending_prefix() -> Seq<char> {
    seq!['_', '_', 'p', 'e', 'n', 'd', 'i', 'n', 'g', ':']
}

/// Whether `c` is the unresolved-contract sentinel for wire id `id`: symbol
/// `__pending:<id>`, security type `Unknown`, no option fields.
pub open spec fn is_unresolved_sentinel(c: Contract, id: i32) -> bool {
    &&& c.symbol@ == pending_prefix() + decimal_text(id as int)
    &&& c.sec_type == SecType::Unknown
    &&& c.expiration is None
    &&& c.is_call is None
    &&& c.strike_thousandths is None
}

/// Whether a tick for wire id `id` resolves to `c` against the cache: the
/// cached contract when the id is assigned, the sentinel otherwise.
pub open spec fn resolves_to(contracts: Map<i32, Contract>, id: i32, c: Contract) -> bool {
    if contracts.contains_key(id) {
        c == contracts[id]
    } else {
        is_unresolved_sentinel(c, id)
    }
}

/// The unresolved-contract sentinel for wire id `contract_id`.
pub fn unresolved_sentinel(contract_id: i32) -> (r: Contract)
    ensures
        is_unresolved_sentinel(r, contract_id),
{
    let mut bytes: Vec<u8> = vec![95u8, 95u8, 112u8, 101u8, 110u8, 100u8, 105u8, 110u8, 103u8, 58u8];
    assert(ascii_chars(bytes@) =~= pending_prefix());
    push_decimal(&mut bytes, contract_id as i64);
    Contract {
        symbol: ascii_string(bytes),
        sec_type: SecType::Unknown,
        expiration: None,
        is_call: None,
        strike_thousandths: None,
    }
}

/// The contracts assigned by `CONTRACT` frames this session, by wire id.
pub struct ContractCache {
    map: HashMapWithView<i32, Contract>,
}

impl View for ContractCache {
    type V = Map<i32, Contract>;

    closed spec fn view(&self) -> Map<i32, Contract> {
        self.map@
    }
}

impl ContractCache {
    /// An empty cache.
    pub fn new() -> (r: ContractCache)
        ensures
            r@ == Map::<i32, Contract>::empty(),
    {
        ContractCache { map: HashMapWithView::new() }
    }

    /// Bind wire id `id` to `contract`, replacing any earlier binding.
    pub fn insert(&mut self, id: i32, contract: Contract)
        ensures
            final(self)@ == old(self)@.insert(id, contract),
    {
        self.map.insert(id, contract);
    }

    /// The contract bound to `id`, if any.
    pub fn get(&self, id: i32) -> (r: Option<&Contract>)
        ensures
            self@.contains_key(id) ==> r == Some(&self@[id]),
            !self@.contains_key(id) ==> r is None,
    {
        self.map.get(&id)
    }

    /// Whether `id` is bound.
    pub fn contains(&self, id: i32) -> (r: bool)
        ensures
            r == self@.contains_key(id),
    {
        self.map.contains_key(&id)
    }

    /// Forget every binding.
    pub fn clear(&mut self)
        ensures
            final(self)@ == Map::<i32, Contract>::empty(),
    {
        self.map.clear();
    }

    /// Number of bound ids.
    pub fn len(&self) -> (r: usize)
        ensures
            r == self@.len(),
    {
        self.map.len()
    }

    /// Whether no id is bound.
    pub fn is_empty(&self) -> (r: bool)
        ensures
            r == (self@.len() == 0),
    {
        self.map.len() == 0
    }
}

/// The tick contract of `id`: the cached contract, or the sentinel.
fn resolve_contract(id: i32, cache: &ContractCache) -> (r: Contract)
    ensures
        resolves_to(cache@, id, r),
{
    match cache.get(id) {
        Some(c) => c.copy(),
        None => unresolved_sentinel(id),
    }
}

/// What a frame carries once its payload has been read for its code.
///
/// Data frames carry the FIT row their payload decodes to; `CONTRACT` and
/// `REQ_RESPONSE` frames carry their parsed body or the parser's error text;
/// `DISCONNECTED` carries the reason and whether the reconnect policy treats
/// that reason as permanent; every other frame carries its raw payload.
#[derive(Debug, PartialEq, Eq)]
pub enum FrameBody {
    Raw(Vec<u8>),
    Tick(FitRow),
    Contract(Result<(i32, Contract), String>),
    ReqResponse(Result<(i32, StreamResponseType), String>),
    Disconnect { reason: RemoveReason, permanent: bool },
}

/// Whether `code` is a FIT-encoded market-data frame.
pub open spec fn is_tick_code(code: StreamMsgType) -> bool {
    code is Quote || code is Trade || code is OpenInterest || code is Ohlcvc || code is MarketValue
}

/// Data fields a tick frame's layout has.
pub open spec fn expected_fields(code: StreamMsgType) -> int {
    match code {
        StreamMsgType::Trade => TRADE_FIELDS as int,
        StreamMsgType::OpenInterest => OI_FIELDS as int,
        StreamMsgType::Ohlcvc => OHLCVC_FIELDS as int,
        _ => QUOTE_FIELDS as int,
    }
}

/// Whether `body` has the shape `code`'s payload is read into.
pub open spec fn body_fits(code: StreamMsgType, body: FrameBody) -> bool {
    if is_tick_code(code) {
        body is Tick
    } else if code is Contract {
        body is Contract
    } else if code is ReqResponse {
        body is ReqResponse
    } else if code is Disconnected {
        body is Disconnect
    } else {
        body is Raw
    }
}

impl FrameBody {
    /// Whether this body has the shape `code`'s payload is read into.
    pub fn fits(&self, code: StreamMsgType) -> (r: bool)
        ensures
            r == body_fits(code, *self),
    {
        match code {
            StreamMsgType::Quote | StreamMsgType::Trade | StreamMsgType::OpenInterest
            | StreamMsgType::Ohlcvc | StreamMsgType::MarketValue => matches!(self, FrameBody::Tick(_)),
            StreamMsgType::Contract => matches!(self, FrameBody::Contract(_)),
            StreamMsgType::ReqResponse => matches!(self, FrameBody::ReqResponse(_)),
            StreamMsgType::Disconnected => matches!(self, FrameBody::Disconnect { .. }),
            _ => matches!(self, FrameBody::Raw(_)),
        }
    }
}

/// Price cell `value` under price type `pt`.
pub open spec fn cell_price(value: i32, pt: i32) -> Price {
    Price::spec_make(value, pt)
}

/// The event an absolute tick of `code` yields for `contract`: the typed
/// data event, or `Unparseable` when the row's width is not the layout's
/// or its price type is out of range.
pub open spec fn tick_event(
    code: StreamMsgType,
    width: int,
    tick: Seq<i32>,
    contract: Contract,
    received_at_ns: u64,
) -> FpssEventInternal {
    if width != expected_fields(code) {
        FpssEventInternal::Unparseable
    } else {
        match code {
            StreamMsgType::Quote => {
                let pt = tick[9];
                if !valid_price_type(pt as int) {
                    FpssEventInternal::Unparseable
                } else {
                    FpssEventInternal::Data(
                        StreamData::Quote {
                            contract,
                            ms_of_day: tick[0],
                            bid_size: tick[1],
                            bid_exchange: tick[2],
                            bid: cell_price(tick[3], pt),
                            bid_condition: tick[4],
                            ask_size: tick[5],
                            ask_exchange: tick[6],
                            ask: cell_price(tick[7], pt),
                            ask_condition: tick[8],
                            date: tick[10],
                            received_at_ns,
                        },
                    )
                }
            },
            StreamMsgType::Trade => {
                let pt = tick[6];
                if !valid_price_type(pt as int) {
                    FpssEventInternal::Unparseable
                } else {
                    FpssEventInternal::Data(
                        StreamData::Trade {
                            contract,
                            ms_of_day: tick[0],
                            sequence: tick[1],
                            size: tick[2],
                            condition: tick[3],
                            price: cell_price(tick[4], pt),
                            exchange: tick[5],
                            date: tick[7],
                            received_at_ns,
                        },
                    )
                }
            },
            StreamMsgType::OpenInterest => FpssEventInternal::Data(
                StreamData::OpenInterest {
                    contract,
                    ms_of_day: tick[0],
                    open_interest: tick[1],
                    date: tick[2],
                    received_at_ns,
                },
            ),
            StreamMsgType::Ohlcvc => {
                let pt = tick[7];
                if !valid_price_type(pt as int) {
                    FpssEventInternal::Unparseable
                } else {
                    FpssEventInternal::Data(
                        StreamData::Ohlcvc {
                            contract,
                            ms_of_day: tick[0],
                            open: cell_price(tick[1], pt),
                            high: cell_price(tick[2], pt),
                            low: cell_price(tick[3], pt),
                            close: cell_price(tick[4], pt),
                            volume: tick[5] as u32 as i64,
                            count: tick[6] as u32 as i64,
                            date: tick[8],
                            received_at_ns,
                        },
                    )
                }
            },
            _ => {
                let pt = tick[9];
                let market_bid = spec_market_bid(tick[3], tick[7], tick[1], tick[5]);
                let market_ask = spec_market_ask(tick[7], tick[1], tick[5]);
                let market_price = spec_midpoint(market_bid as int, market_ask as int) as i32;
                if !valid_price_type(pt as int) {
                    FpssEventInternal::Unparseable
                } else {
                    FpssEventInternal::Data(
                        StreamData::MarketValue {
                            contract,
                            ms_of_day: tick[0],
                            market_bid: cell_price(market_bid, pt),
                            market_ask: cell_price(market_ask, pt),
                            market_price: cell_price(market_price, pt),
                            date: tick[10],
                            received_at_ns,
                        },
                    )
                }
            },
        }
    }
}

/// The price cell `value` under price type `pt`, or `None` when `pt` is out
/// of range.
fn strict_fpss_price(value: i32, pt: i32) -> (r: Option<Price>)
    ensures
        valid_price_type(pt as int) ==> r == Some(cell_price(value, pt)),
        !valid_price_type(pt as int) ==> r is None,
{
    match Price::with_value_and_type(value, pt) {
        Ok(p) => Some(p),
        Err(_) => None,
    }
}

/// The event an absolute tick of `code` (with stream width `width`) yields
/// for `contract`.
fn tick_event_from(
    code: StreamMsgType,
    width: usize,
    buf: &TickFields,
    contract: Contract,
    received_at_ns: u64,
) -> (r: FpssEventInternal)
    requires
        is_tick_code(code),
    ensures
        r == tick_event(code, width as int, buf@, contract, received_at_ns),
{
    match code {
        StreamMsgType::Quote => {
            if width != QUOTE_FIELDS {
                return FpssEventInternal::Unparseable;
            }
            let pt = buf[9];
            match (strict_fpss_price(buf[3], pt), strict_fpss_price(buf[7], pt)) {
                (Some(bid), Some(ask)) => FpssEventInternal::Data(
                    StreamData::Quote {
                        contract,
                        ms_of_day: buf[0],
                        bid_size: buf[1],
                        bid_exchange: buf[2],
                        bid,
                        bid_condition: buf[4],
                        ask_size: buf[5],
                        ask_exchange: buf[6],
                        ask,
                        ask_condition: buf[8],
                        date: buf[10],
                        received_at_ns,
                    },
                ),
                _ => FpssEventInternal::Unparseable,
            }
        },
        StreamMsgType::Trade => {
            if width != TRADE_FIELDS {
                return FpssEventInternal::Unparseable;
            }
            let pt = buf[6];
            match strict_fpss_price(buf[4], pt) {
                Some(price) => FpssEventInternal::Data(
                    StreamData::Trade {
                        contract,
                        ms_of_day: buf[0],
                        sequence: buf[1],
                        size: buf[2],
                        condition: buf[3],
                        price,
                        exchange: buf[5],
                        date: buf[7],
                        received_at_ns,
                    },
                ),
                None => FpssEventInternal::Unparseable,
            }
        },
        StreamMsgType::OpenInterest => {
            if width != OI_FIELDS {
                return FpssEventInternal::Unparseable;
            }
            FpssEventInternal::Data(
                StreamData::OpenInterest {
                    contract,
                    ms_of_day: buf[0],
                    open_interest: buf[1],
                    date: buf[2],
                    received_at_ns,
                },
            )
        },
        StreamMsgType::Ohlcvc => {
            if width != OHLCVC_FIELDS {
                return FpssEventInternal::Unparseable;
            }
            let pt = buf[7];
            match (
                strict_fpss_price(buf[1], pt),
                strict_fpss_price(buf[2], pt),
                strict_fpss_price(buf[3], pt),
                strict_fpss_price(buf[4], pt),
            ) {
                (Some(open), Some(high), Some(low), Some(close)) => {
                    // Volume and count are unsigned 32-bit wire words.
                    let volume = buf[5] as u32 as i64;
                    let count = buf[6] as u32 as i64;
                    FpssEventInternal::Data(
                        StreamData::Ohlcvc {
                            contract,
                            ms_of_day: buf[0],
                            open,
                            high,
                            low,
                            close,
                            volume,
                            count,
                            date: buf[8],
                            received_at_ns,
                        },
                    )
                },
                _ => FpssEventInternal::Unparseable,
            }
        },
        _ => {
            if width != QUOTE_FIELDS {
                return FpssEventInternal::Unparseable;
            }
            let pt = buf[9];
            let (market_bid_i, market_ask_i) = calculate_market_value(buf[3], buf[7], buf[1], buf[5]);
            let market_price_i = market_value_midpoint(market_bid_i, market_ask_i);
            match (
                strict_fpss_price(market_bid_i, pt),
                strict_fpss_price(market_ask_i, pt),
                strict_fpss_price(market_price_i, pt),
            ) {
                (Some(market_bid), Some(market_ask), Some(market_price)) => FpssEventInternal::Data(
                    StreamData::MarketValue {
                        contract,
                        ms_of_day: buf[0],
                        market_bid,
                        market_ask,
                        market_price,
                        date: buf[10],
                        received_at_ns,
                    },
                ),
                _ => FpssEventInternal::Unparseable,
            }
        },
    }
}

/// Decode one FIT-encoded data frame: delta-decompress the row, resolve its
/// contract and read the tick's cells.
fn decode_tick_frame(
    code: StreamMsgType,
    row: &FitRow,
    received_at_ns: u64,
    contracts: &ContractCache,
    delta_state: &mut DeltaState,
) -> (r: Option<FpssEventInternal>)
    requires
        is_tick_code(code),
        old(delta_state).well_formed(),
    ensures
        tick_applied(old(delta_state), final(delta_state), msg_type_code(code), *row, expected_fields(code)),
        match spec_tick_result(
            old(delta_state).baselines(),
            old(delta_state).widths(),
            msg_type_code(code),
            *row,
            expected_fields(code),
        ) {
            Some((cid, width, tick)) => exists|c: Contract|
                #[trigger] resolves_to(contracts@, cid, c) && r == Some(
                    tick_event(code, width as int, tick, c, received_at_ns),
                ),
            None => r == if row.is_date {
                None
            } else {
                Some(FpssEventInternal::Unparseable)
            },
        },
{
    let expected: usize = match code {
        StreamMsgType::Trade => TRADE_FIELDS,
        StreamMsgType::OpenInterest => OI_FIELDS,
        StreamMsgType::Ohlcvc => OHLCVC_FIELDS,
        _ => QUOTE_FIELDS,
    };
    let mut buf: TickFields = [0i32; MAX_DATA_FIELDS];
    let code_byte = code.code();
    match delta_state.decode_tick(code_byte, row, expected, &mut buf) {
        Some((contract_id, width)) => {
            let contract = resolve_contract(contract_id, contracts);
            let ghost c = contract;
            let event = tick_event_from(code, width, &buf, contract, received_at_ns);
            assert(resolves_to(contracts@, contract_id, c));
            Some(event)
        },
        None => {
            if delta_state.last_was_date() {
                None
            } else {
                Some(FpssEventInternal::Unparseable)
            }
        },
    }
}

/// START, STOP, RESTART and a server-side reconnect end a decode session.
pub open spec fn is_session_boundary(code: StreamMsgType) -> bool {
    code is Start || code is Stop || code is Restart || code is Reconnected
}

/// The raw payload of a frame read raw (empty for any other body).
pub open spec fn raw_payload(body: FrameBody) -> Seq<u8> {
    match body {
        FrameBody::Raw(bytes) => bytes@,
        _ => Seq::empty(),
    }
}

/// Whether a payload holds a control byte, i.e. is binary data rather than
/// a readable message.
pub open spec fn payload_is_binary(payload: Seq<u8>) -> bool {
    exists|i: int| 0 <= i < payload.len() && is_control_byte(#[trigger] payload[i])
}

/// The event of a control frame whose event carries no decoded text, and
/// `None` for a binary ERROR frame (a replay artifact, skipped).
pub open spec fn plain_control_event(code: StreamMsgType, body: FrameBody) -> Option<FpssEventInternal> {
    match code {
        StreamMsgType::Start => Some(FpssEventInternal::Control(StreamControl::MarketOpen)),
        StreamMsgType::Stop => Some(FpssEventInternal::Control(StreamControl::MarketClose)),
        StreamMsgType::Restart => Some(FpssEventInternal::Control(StreamControl::Restart)),
        StreamMsgType::Reconnected => Some(FpssEventInternal::Control(StreamControl::ReconnectedServer)),
        StreamMsgType::Connected => Some(FpssEventInternal::Control(StreamControl::Connected)),
        StreamMsgType::Error => None,
        StreamMsgType::Ping => match body {
            FrameBody::Raw(payload) => Some(FpssEventInternal::Control(StreamControl::Ping { payload })),
            _ => None,
        },
        StreamMsgType::Disconnected => match body {
            FrameBody::Disconnect { reason, .. } => Some(
                FpssEventInternal::Control(StreamControl::Disconnected { reason }),
            ),
            _ => None,
        },
        _ => match body {
            FrameBody::Raw(payload) => Some(
                FpssEventInternal::Control(StreamControl::UnknownFrame { code: msg_type_code(code), payload }),
            ),
            _ => None,
        },
    }
}

/// Whether `code` is a control frame whose event [`plain_control_event`]
/// gives.
pub open spec fn is_plain_control(code: StreamMsgType, body: FrameBody) -> bool {
    !is_tick_code(code) && !(code is Metadata) && !(code is Contract) && !(code is ReqResponse)
        && !(code is Error && !payload_is_binary(raw_payload(body)))
}

/// Decode one frame into zero or one event, updating the session state.
/// `received_at_ns` is the wall-clock receive time stamped on data events.
///
/// * Data frames delta-decode their FIT row and yield the typed tick (its
///   contract resolved against the cache, or the unresolved sentinel), or
///   `Unparseable` for a rejected row, a width the layout does not have or
///   an out-of-range price type; a DATE marker yields nothing.
/// * METADATA yields `LoginSuccess` with the payload text and marks the
///   session authenticated; DISCONNECTED clears it, and a permanent
///   disconnect requests shutdown.
/// * CONTRACT binds the wire id in the cache; REQ_RESPONSE yields the
///   response; a body that did not parse yields an `Error` naming the frame.
/// * START, STOP, RESTART and a server-side reconnect clear the delta state
///   and the contract cache.
/// * An ERROR frame yields the server's message, unless its payload is
///   binary (skipped); unknown codes yield `UnknownFrame` with the payload.
pub fn decode_frame(
    code: StreamMsgType,
    body: FrameBody,
    received_at_ns: u64,
    authenticated: &mut bool,
    local_contracts: &mut ContractCache,
    shutdown: &mut bool,
    delta_state: &mut DeltaState,
) -> (r: Option<FpssEventInternal>)
    requires
        body_fits(code, body),
        old(delta_state).well_formed(),
    ensures
        final(delta_state).well_formed(),
        is_tick_code(code) ==> (body matches FrameBody::Tick(row) && tick_applied(
            old(delta_state),
            final(delta_state),
            msg_type_code(code),
            row,
            expected_fields(code),
        )),
        is_session_boundary(code) ==> {
            &&& final(delta_state).baselines() == Map::<u64, TickFields>::empty()
            &&& final(delta_state).widths() == Map::<u64, usize>::empty()
            &&& !final(delta_state).spec_last_was_date()
            &&& final(delta_state).last_stop_at() == old(delta_state).last_stop_at()
            &&& final(local_contracts)@ == Map::<i32, Contract>::empty()
        },
        !is_tick_code(code) && !is_session_boundary(code) ==> *final(delta_state) == *old(delta_state),
        body matches FrameBody::Contract(Ok((id, c)))
            ==> final(local_contracts)@ == old(local_contracts)@.insert(id, c),
        !is_session_boundary(code) && !(body matches FrameBody::Contract(Ok(_)))
            ==> final(local_contracts)@ == old(local_contracts)@,
        *final(authenticated) == if code is Metadata {
            true
        } else if code is Disconnected {
            false
        } else {
            *old(authenticated)
        },
        *final(shutdown) == (*old(shutdown) || (body matches FrameBody::Disconnect { permanent, .. }
            && permanent)),
        is_tick_code(code) ==> (body matches FrameBody::Tick(row) && match spec_tick_result(
            old(delta_state).baselines(),
            old(delta_state).widths(),
            msg_type_code(code),
            row,
            expected_fields(code),
        ) {
            Some((cid, width, tick)) => exists|c: Contract|
                #[trigger] resolves_to(old(local_contracts)@, cid, c) && r == Some(
                    tick_event(code, width as int, tick, c, received_at_ns),
                ),
            None => r == if row.is_date {
                None
            } else {
                Some(FpssEventInternal::Unparseable)
            },
        }),
        code is Metadata ==> (r matches Some(
            FpssEventInternal::Control(StreamControl::LoginSuccess { permissions }),
        ) && permissions@ == utf8_lossy(raw_payload(body))),
        code is Error && !payload_is_binary(raw_payload(body)) ==> (r matches Some(
            FpssEventInternal::Control(StreamControl::ServerError { message }),
        ) && message@ == utf8_lossy(raw_payload(body))),
        body matches FrameBody::Contract(Ok((id, c))) ==> r == Some(
            FpssEventInternal::Control(StreamControl::ContractAssigned { id, contract: c }),
        ),
        body matches FrameBody::Contract(Err(e)) ==> (r matches Some(
            FpssEventInternal::Control(StreamControl::Error { message }),
        ) && message@ == "failed to parse CONTRACT message: "@ + e@),
        body matches FrameBody::ReqResponse(Ok((req_id, result))) ==> r == Some(
            FpssEventInternal::Control(StreamControl::ReqResponse { req_id, result }),
        ),
        body matches FrameBody::ReqResponse(Err(e)) ==> (r matches Some(
            FpssEventInternal::Control(StreamControl::Error { message }),
        ) && message@ == "failed to parse REQ_RESPONSE: "@ + e@),
        is_plain_control(code, body) ==> r == plain_control_event(code, body),
{
    match code {
        StreamMsgType::Quote | StreamMsgType::Trade | StreamMsgType::OpenInterest
        | StreamMsgType::Ohlcvc | StreamMsgType::MarketValue => match &body {
            FrameBody::Tick(row) => decode_tick_frame(code, row, received_at_ns, local_contracts, delta_state),
            _ => None,
        },
        StreamMsgType::Metadata => match &body {
            FrameBody::Raw(payload) => {
                let permissions = lossy_text(payload.as_slice());
                *authenticated = true;
                Some(FpssEventInternal::Control(StreamControl::LoginSuccess { permissions }))
            },
            _ => None,
        },
        StreamMsgType::Contract => match body {
            FrameBody::Contract(Ok((id, contract))) => {
                local_contracts.insert(id, contract.copy());
                Some(FpssEventInternal::Control(StreamControl::ContractAssigned { id, contract }))
            },
            FrameBody::Contract(Err(e)) => {
                let mut message = "failed to parse CONTRACT message: ".to_owned();
                message.append(e.as_str());
                Some(FpssEventInternal::Control(StreamControl::Error { message }))
            },
            _ => None,
        },
        StreamMsgType::ReqResponse => match body {
            FrameBody::ReqResponse(Ok((req_id, result))) => Some(
                FpssEventInternal::Control(StreamControl::ReqResponse { req_id, result }),
            ),
            FrameBody::ReqResponse(Err(e)) => {
                let mut message = "failed to parse REQ_RESPONSE: ".to_owned();
                message.append(e.as_str());
                Some(FpssEventInternal::Control(StreamControl::Error { message }))
            },
            _ => None,
        },
        StreamMsgType::Start => {
            delta_state.clear();
            local_contracts.clear();
            Some(FpssEventInternal::Control(StreamControl::MarketOpen))
        },
        StreamMsgType::Stop => {
            delta_state.clear();
            local_contracts.clear();
            Some(FpssEventInternal::Control(StreamControl::MarketClose))
        },
        StreamMsgType::Restart => {
            delta_state.clear();
            local_contracts.clear();
            Some(FpssEventInternal::Control(StreamControl::Restart))
        },
        StreamMsgType::Reconnected => {
            delta_state.clear();
            local_contracts.clear();
            Some(FpssEventInternal::Control(StreamControl::ReconnectedServer))
        },
        StreamMsgType::Error => match &body {
            FrameBody::Raw(payload) => {
                if is_binary_payload(payload.as_slice()) {
                    None
                } else {
                    let message = lossy_text(payload.as_slice());
                    Some(FpssEventInternal::Control(StreamControl::ServerError { message }))
                }
            },
            _ => None,
        },
        StreamMsgType::Disconnected => match body {
            FrameBody::Disconnect { reason, permanent } => {
                *authenticated = false;
                if permanent {
                    *shutdown = true;
                }
                Some(FpssEventInternal::Control(StreamControl::Disconnected { reason }))
            },
            _ => None,
        },
        StreamMsgType::Connected => Some(FpssEventInternal::Control(StreamControl::Connected)),
        StreamMsgType::Ping => match body {
            FrameBody::Raw(payload) => Some(FpssEventInternal::Control(StreamControl::Ping { payload })),
            _ => None,
        },
        other => match body {
            FrameBody::Raw(payload) => Some(
                FpssEventInternal::Control(StreamControl::UnknownFrame { code: other.code(), payload }),
            ),
            _ => None,
        },
    }
}

/// After a session boundary (no baselines, no widths), any complete,
/// non-DATE row decodes as an absolute row: its own fields, never a delta
/// onto a pre-boundary baseline; a row wider than the layout is rejected.
pub proof fn fresh_session_tick_is_absolute(code: StreamMsgType, row: FitRow)
    requires
        is_tick_code(code),
        !row.is_date,
        row.row_complete,
        row.fields@.len() > 0,
    ensures
        spec_tick_result(
            Map::<u64, TickFields>::empty(),
            Map::<u64, usize>::empty(),
            msg_type_code(code),
            row,
            expected_fields(code),
        ) == if row.fields@.len() - 1 > expected_fields(code) {
            None
        } else {
            Some(
                (
                    row.fields@[0],
                    (row.fields@.len() - 1) as usize,
                    absolute_tick(row.fields@, expected_fields(code)),
                ),
            )
        },
{
}

/// A tick for a wire id resolves to exactly the contract the last CONTRACT
/// frame bound to that id.
pub proof fn assigned_contract_resolves(contracts: Map<i32, Contract>, id: i32, assigned: Contract, c: Contract)
    ensures
        resolves_to(contracts.insert(id, assigned), id, c) <==> c == assigned,
{
}

/// After a session boundary empties the cache, every wire id resolves to its
/// unresolved sentinel (security type `Unknown`), never a pre-boundary
/// contract.
pub proof fn cleared_cache_resolves_to_sentinel(id: i32, c: Contract)
    ensures
        resolves_to(Map::<i32, Contract>::empty(), id, c) <==> is_unresolved_sentinel(c, id),
        resolves_to(Map::<i32, Contract>::empty(), id, c) ==> c.sec_type == SecType::Unknown,
{
}


/// A quote tick of the layout's width with a valid price type decodes to a
/// quote whose bid is the price cell of data field 3 and whose ask is the
/// cell of data field 7, both at the price type of field 9, with the sizes
/// from fields 1 and 5. So a quote whose wire bid is below its wire ask
/// decodes with a lower bid than ask.
pub proof fn quote_sides_come_from_their_fields(
    width: int,
    tick: Seq<i32>,
    contract: Contract,
    received_at_ns: u64,
)
    requires
        width == expected_fields(StreamMsgType::Quote),
        valid_price_type(tick[9] as int),
    ensures
        tick_event(StreamMsgType::Quote, width, tick, contract, received_at_ns) matches FpssEventInternal::Data(
            StreamData::Quote { bid, ask, bid_size, ask_size, .. },
        ) && {
            &&& bid.spec_value() == tick[3] && bid.spec_price_type() == tick[9]
            &&& ask.spec_value() == tick[7] && ask.spec_price_type() == tick[9]
            &&& bid_size == tick[1] && ask_size == tick[5]
            &&& (tick[3] < tick[7] ==> bid.spec_value() < ask.spec_value())
        },
{
    made_price_keeps_its_cell(tick[3], tick[9]);
    made_price_keeps_its_cell(tick[7], tick[9]);
}


/// The other tick layouts read each field from its own position: a trade's
/// price is the cell of data field 4 at the price type of field 6, with the
/// size from field 2; an OHLCVC bar's open, high, low and close are the
/// cells of fields 1 to 4 at the price type of field 7; open interest is
/// field 1. Time of day is field 0 throughout.
pub proof fn tick_fields_come_from_their_positions(
    width: int,
    tick: Seq<i32>,
    contract: Contract,
    received_at_ns: u64,
)
    ensures
        width == expected_fields(StreamMsgType::Trade) && valid_price_type(tick[6] as int) ==> (tick_event(
            StreamMsgType::Trade,
            width,
            tick,
            contract,
            received_at_ns,
        ) matches FpssEventInternal::Data(StreamData::Trade { ms_of_day, size, price, .. }) && {
            &&& ms_of_day == tick[0] && size == tick[2]
            &&& price.spec_value() == tick[4] && price.spec_price_type() == tick[6]
        }),
        width == expected_fields(StreamMsgType::Ohlcvc) && valid_price_type(tick[7] as int) ==> (tick_event(
            StreamMsgType::Ohlcvc,
            width,
            tick,
            contract,
            received_at_ns,
        ) matches FpssEventInternal::Data(StreamData::Ohlcvc { ms_of_day, open, high, low, close, .. }) && {
            &&& ms_of_day == tick[0]
            &&& open.spec_value() == tick[1] && high.spec_value() == tick[2]
            &&& low.spec_value() == tick[3] && close.spec_value() == tick[4]
            &&& open.spec_price_type() == tick[7] && close.spec_price_type() == tick[7]
        }),
        width == expected_fields(StreamMsgType::OpenInterest) ==> (tick_event(
            StreamMsgType::OpenInterest,
            width,
            tick,
            contract,
            received_at_ns,
        ) matches FpssEventInternal::Data(StreamData::OpenInterest { ms_of_day, open_interest, .. }) && {
            &&& ms_of_day == tick[0] && open_interest == tick[1]
        }),
{
    made_price_keeps_its_cell(tick[4], tick[6]);
    made_price_keeps_its_cell(tick[1], tick[7]);
    made_price_keeps_its_cell(tick[2], tick[7]);
    made_price_keeps_its_cell(tick[3], tick[7]);
    made_price_keeps_its_cell(tick[4], tick[7]);
}

} // verus!
