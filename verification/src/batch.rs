//! Columnar rows for market-data events.
//!
//! Every data event becomes one row of a fixed column set: the
//! `event_type` discriminator, the contract identity, the three columns
//! common to every variant, and the payload columns of each variant, of
//! which only the event's own are filled; every other payload column is
//! null. A builder accumulates rows and hands a batch out when flushed.

use vstd::prelude::*;

use crate::contract::Contract;
use crate::enums::{sec_type_code, SecType};
use crate::event_type;
use crate::events::{StreamData, StreamEvent};
use crate::price::Price;

verus! {

/// Approximate serialized bytes per row of a batch, used only to size an
/// output buffer up front.
pub const EST_IPC_BYTES_PER_ROW: usize = 256;

/// Fixed framing allowance (schema message, batch header, end marker) added
/// to the per-row estimate.
pub const EST_IPC_FRAMING_OVERHEAD: usize = 16 * 1024;

/// Estimated serialized size of a batch of `num_rows` rows:
/// `num_rows * EST_IPC_BYTES_PER_ROW + EST_IPC_FRAMING_OVERHEAD`, saturated
/// at `usize::MAX`.
pub fn estimated_ipc_len(num_rows: usize) -> (r: usize)
    ensures
        r == if num_rows * EST_IPC_BYTES_PER_ROW + EST_IPC_FRAMING_OVERHEAD > usize::MAX {
            usize::MAX as int
        } else {
            num_rows * EST_IPC_BYTES_PER_ROW + EST_IPC_FRAMING_OVERHEAD
        },
{
    if num_rows > (usize::MAX - EST_IPC_FRAMING_OVERHEAD) / EST_IPC_BYTES_PER_ROW {
        usize::MAX
    } else {
        num_rows * EST_IPC_BYTES_PER_ROW + EST_IPC_FRAMING_OVERHEAD
    }
}

/// One batch row.
#[derive(Debug, Clone, PartialEq)]
pub struct BatchRow {
    pub event_type: &'static str,
    pub symbol: String,
    pub sec_type: i32,
    pub expiration: Option<i32>,
    /// Strike in thousandths of a dollar (the column carries dollars).
    pub strike_thousandths: Option<i32>,
    pub right: Option<&'static str>,
    pub ms_of_day: i32,
    pub date: i32,
    pub received_at_ns: u64,
    pub bid: Option<Price>,
    pub bid_size: Option<i32>,
    pub bid_exchange: Option<i32>,
    pub bid_condition: Option<i32>,
    pub ask: Option<Price>,
    pub ask_size: Option<i32>,
    pub ask_exchange: Option<i32>,
    pub ask_condition: Option<i32>,
    pub price: Option<Price>,
    pub size: Option<i32>,
    pub exchange: Option<i32>,
    pub sequence: Option<i32>,
    pub condition: Option<i32>,
    pub open_interest: Option<i32>,
    pub open: Option<Price>,
    pub high: Option<Price>,
    pub low: Option<Price>,
    pub close: Option<Price>,
    pub volume: Option<i64>,
    pub count: Option<i64>,
    pub market_bid: Option<Price>,
    pub market_ask: Option<Price>,
    pub market_price: Option<Price>,
}

/// The right tag of a contract: `"C"` for a call, `"P"` for a put, none
/// for a non-option.
pub open spec fn right_tag(is_call: Option<bool>) -> Option<Seq<char>> {
    match is_call {
        Some(true) => Some("C"@),
        Some(false) => Some("P"@),
        None => None,
    }
}

/// Whether `r`'s identity and common columns are those of the event.
pub open spec fn header_columns(
    r: BatchRow,
    tag: Seq<char>,
    c: Contract,
    ms_of_day: i32,
    date: i32,
    received_at_ns: u64,
) -> bool {
    &&& r.event_type@ == tag
    &&& r.symbol@ == c.symbol@
    &&& r.sec_type == sec_type_code(c.sec_type)
    &&& r.expiration == c.expiration
    &&& r.strike_thousandths == c.strike_thousandths
    &&& match r.right {
        Some(t) => right_tag(c.is_call) == Some(t@),
        None => right_tag(c.is_call) is None,
    }
    &&& r.ms_of_day == ms_of_day
    &&& r.date == date
    &&& r.received_at_ns == received_at_ns
}

/// The quote columns are null.
pub open spec fn no_quote(r: BatchRow) -> bool {
    r.bid is None && r.bid_size is None && r.bid_exchange is None && r.bid_condition is None && r.ask is None
        && r.ask_size is None && r.ask_exchange is None && r.ask_condition is None
}

/// The trade columns are null.
pub open spec fn no_trade(r: BatchRow) -> bool {
    r.price is None && r.size is None && r.exchange is None && r.sequence is None && r.condition is None
}

/// The OHLCVC columns are null.
pub open spec fn no_ohlcvc(r: BatchRow) -> bool {
    r.open is None && r.high is None && r.low is None && r.close is None && r.volume is None && r.count is None
}

/// The market-value columns are null.
pub open spec fn no_market_value(r: BatchRow) -> bool {
    r.market_bid is None && r.market_ask is None && r.market_price is None
}

/// Whether `r` is the row of data event `d`.
pub open spec fn row_of(d: StreamData, r: BatchRow) -> bool {
    match d {
        StreamData::Quote {
            contract,
            ms_of_day,
            bid_size,
            bid_exchange,
            bid,
            bid_condition,
            ask_size,
            ask_exchange,
            ask,
            ask_condition,
            date,
            received_at_ns,
        } => {
            &&& header_columns(r, "quote"@, contract, ms_of_day, date, received_at_ns)
            &&& r.bid == Some(bid) && r.bid_size == Some(bid_size) && r.bid_exchange == Some(bid_exchange)
            &&& r.bid_condition == Some(bid_condition) && r.ask == Some(ask) && r.ask_size == Some(ask_size)
            &&& r.ask_exchange == Some(ask_exchange) && r.ask_condition == Some(ask_condition)
            &&& no_trade(r) && r.open_interest is None && no_ohlcvc(r) && no_market_value(r)
        },
        StreamData::Trade {
            contract,
            ms_of_day,
            sequence,
            size,
            condition,
            price,
            exchange,
            date,
            received_at_ns,
        } => {
            &&& header_columns(r, "trade"@, contract, ms_of_day, date, received_at_ns)
            &&& no_quote(r)
            &&& r.price == Some(price) && r.size == Some(size) && r.exchange == Some(exchange)
            &&& r.sequence == Some(sequence) && r.condition == Some(condition)
            &&& r.open_interest is None && no_ohlcvc(r) && no_market_value(r)
        },
        StreamData::OpenInterest { contract, ms_of_day, open_interest, date, received_at_ns } => {
            &&& header_columns(r, "open_interest"@, contract, ms_of_day, date, received_at_ns)
            &&& no_quote(r) && no_trade(r)
            &&& r.open_interest == Some(open_interest)
            &&& no_ohlcvc(r) && no_market_value(r)
        },
        StreamData::Ohlcvc {
            contract,
            ms_of_day,
            open,
            high,
            low,
            close,
            volume,
            count,
            date,
            received_at_ns,
        } => {
            &&& header_columns(r, "ohlcvc"@, contract, ms_of_day, date, received_at_ns)
            &&& no_quote(r) && no_trade(r) && r.open_interest is None
            &&& r.open == Some(open) && r.high == Some(high) && r.low == Some(low) && r.close == Some(close)
            &&& r.volume == Some(volume) && r.count == Some(count)
            &&& no_market_value(r)
        },
        StreamData::MarketValue {
            contract,
            ms_of_day,
            market_bid,
            market_ask,
            market_price,
            date,
            received_at_ns,
        } => {
            &&& header_columns(r, "market_value"@, contract, ms_of_day, date, received_at_ns)
            &&& no_quote(r) && no_trade(r) && r.open_interest is None && no_ohlcvc(r)
            &&& r.market_bid == Some(market_bid) && r.market_ask == Some(market_ask)
            &&& r.market_price == Some(market_price)
        },
    }
}

/// The wire code of a security type.
fn sec_type_number(t: SecType) -> (r: i32)
    ensures
        r == sec_type_code(t),
{
    match t {
        SecType::Stock => 0,
        SecType::Option => 1,
        SecType::Index => 2,
        SecType::Rate => 3,
        SecType::Unknown => -1,
    }
}

/// A row with the identity and common columns of an event and every
/// payload column null.
fn push_header(tag: &'static str, contract: &Contract, ms_of_day: i32, date: i32, received_at_ns: u64) -> (r: BatchRow)
    ensures
        header_columns(r, tag@, *contract, ms_of_day, date, received_at_ns),
        no_quote(r) && no_trade(r) && r.open_interest is None && no_ohlcvc(r) && no_market_value(r),
{
    let right: Option<&'static str> = match contract.is_call {
        Some(true) => Some("C"),
        Some(false) => Some("P"),
        None => None,
    };
    BatchRow {
        event_type: tag,
        symbol: contract.symbol.clone(),
        sec_type: sec_type_number(contract.sec_type),
        expiration: contract.expiration,
        strike_thousandths: contract.strike_thousandths,
        right,
        ms_of_day,
        date,
        received_at_ns,
        bid: None,
        bid_size: None,
        bid_exchange: None,
        bid_condition: None,
        ask: None,
        ask_size: None,
        ask_exchange: None,
        ask_condition: None,
        price: None,
        size: None,
        exchange: None,
        sequence: None,
        condition: None,
        open_interest: None,
        open: None,
        high: None,
        low: None,
        close: None,
        volume: None,
        count: None,
        market_bid: None,
        market_ask: None,
        market_price: None,
    }
}

/// The row of one market-data event: its tag, identity and common columns,
/// its own payload columns, and null for every other payload column.
pub fn batch_row(data: &StreamData) -> (r: BatchRow)
    ensures
        row_of(*data, r),
{
    match data {
        StreamData::Quote {
            contract,
            ms_of_day,
            bid_size,
            bid_exchange,
            bid,
            bid_condition,
            ask_size,
            ask_exchange,
            ask,
            ask_condition,
            date,
            received_at_ns,
        } => {
            let mut r = push_header(event_type::QUOTE, contract, *ms_of_day, *date, *received_at_ns);
            r.bid = Some(*bid);
            r.bid_size = Some(*bid_size);
            r.bid_exchange = Some(*bid_exchange);
            r.bid_condition = Some(*bid_condition);
            r.ask = Some(*ask);
            r.ask_size = Some(*ask_size);
            r.ask_exchange = Some(*ask_exchange);
            r.ask_condition = Some(*ask_condition);
            r
        },
        StreamData::Trade {
            contract,
            ms_of_day,
            sequence,
            size,
            condition,
            price,
            exchange,
            date,
            received_at_ns,
        } => {
            let mut r = push_header(event_type::TRADE, contract, *ms_of_day, *date, *received_at_ns);
            r.price = Some(*price);
            r.size = Some(*size);
            r.exchange = Some(*exchange);
            r.sequence = Some(*sequence);
            r.condition = Some(*condition);
            r
        },
        StreamData::OpenInterest { contract, ms_of_day, open_interest, date, received_at_ns } => {
            let mut r = push_header(event_type::OPEN_INTEREST, contract, *ms_of_day, *date, *received_at_ns);
            r.open_interest = Some(*open_interest);
            r
        },
        StreamData::Ohlcvc {
            contract,
            ms_of_day,
            open,
            high,
            low,
            close,
            volume,
            count,
            date,
            received_at_ns,
        } => {
            let mut r = push_header(event_type::OHLCVC, contract, *ms_of_day, *date, *received_at_ns);
            r.open = Some(*open);
            r.high = Some(*high);
            r.low = Some(*low);
            r.close = Some(*close);
            r.volume = Some(*volume);
            r.count = Some(*count);
            r
        },
        StreamData::MarketValue {
            contract,
            ms_of_day,
            market_bid,
            market_ask,
            market_price,
            date,
            received_at_ns,
        } => {
            let mut r = push_header(event_type::MARKET_VALUE, contract, *ms_of_day, *date, *received_at_ns);
            r.market_bid = Some(*market_bid);
            r.market_ask = Some(*market_ask);
            r.market_price = Some(*market_price);
            r
        },
    }
}

/// Accumulates rows of market-data events into batches.
pub struct StreamBatchBuilder {
    capacity: usize,
    rows: Vec<BatchRow>,
}

impl StreamBatchBuilder {
    /// The rows buffered since the last flush, in arrival order.
    pub closed spec fn buffered(&self) -> Seq<BatchRow> {
        self.rows@
    }

    /// The row count every batch's buffer is preallocated for.
    pub closed spec fn preallocated(&self) -> usize {
        self.capacity
    }

    /// An empty builder preallocated for `capacity` rows.
    pub fn with_capacity(capacity: usize) -> (r: StreamBatchBuilder)
        ensures
            r.buffered() == Seq::<BatchRow>::empty(),
            r.preallocated() == capacity,
    {
        StreamBatchBuilder { capacity, rows: Vec::with_capacity(capacity) }
    }

    /// Rows buffered since the last flush.
    pub fn len(&self) -> (r: usize)
        ensures
            r == self.buffered().len(),
    {
        self.rows.len()
    }

    /// Whether no row is buffered.
    pub fn is_empty(&self) -> (r: bool)
        ensures
            r == (self.buffered().len() == 0),
    {
        self.rows.len() == 0
    }

    /// Append one market-data event as a row.
    pub fn append_data(&mut self, data: &StreamData)
        ensures
            final(self).buffered().len() == old(self).buffered().len() + 1,
            final(self).buffered().drop_last() == old(self).buffered(),
            row_of(*data, final(self).buffered().last()),
            final(self).preallocated() == old(self).preallocated(),
    {
        let row = batch_row(data);
        self.rows.push(row);
        assert(self.rows@.drop_last() =~= old(self).rows@);
    }

    /// Append an event if it carries market data, returning whether a row
    /// was written; control events carry no columns and are skipped.
    pub fn append(&mut self, event: &StreamEvent) -> (r: bool)
        ensures
            r == (event is Data),
            event matches StreamEvent::Data(d) ==> {
                &&& final(self).buffered().len() == old(self).buffered().len() + 1
                &&& final(self).buffered().drop_last() == old(self).buffered()
                &&& row_of(*d, final(self).buffered().last())
            },
            event is Control ==> final(self).buffered() == old(self).buffered(),
            final(self).preallocated() == old(self).preallocated(),
    {
        match event {
            StreamEvent::Data(data) => {
                self.append_data(data);
                true
            },
            StreamEvent::Control(_) => false,
        }
    }

    /// Hand out the buffered rows as one batch and start the next batch
    /// empty; `None` (and nothing changed) when no row is buffered.
    pub fn finish(&mut self) -> (r: Option<Vec<BatchRow>>)
        ensures
            old(self).buffered().len() == 0 ==> r is None && final(self).buffered() == old(self).buffered(),
            old(self).buffered().len() > 0 ==> (r matches Some(rows) && rows@ == old(self).buffered()),
            final(self).buffered() == Seq::<BatchRow>::empty(),
            final(self).preallocated() == old(self).preallocated(),
    {
        if self.rows.len() == 0 {
            return None;
        }
        let mut rows: Vec<BatchRow> = Vec::with_capacity(self.capacity);
        std::mem::swap(&mut rows, &mut self.rows);
        Some(rows)
    }
}


/// Each quote payload column of a quote's row holds the event field of the
/// same name: bid columns from the bid side, ask columns from the ask side.
pub proof fn quote_row_columns_hold_their_fields(d: StreamData, r: BatchRow)
    requires
        row_of(d, r),
    ensures
        d matches StreamData::Quote {
            bid_size,
            bid_exchange,
            bid,
            bid_condition,
            ask_size,
            ask_exchange,
            ask,
            ask_condition,
            ..
        } ==> {
            &&& r.bid_size == Some(bid_size) && r.ask_size == Some(ask_size)
            &&& r.bid == Some(bid) && r.ask == Some(ask)
            &&& r.bid_exchange == Some(bid_exchange) && r.ask_exchange == Some(ask_exchange)
            &&& r.bid_condition == Some(bid_condition) && r.ask_condition == Some(ask_condition)
        },
{
}


/// Each payload column of a trade, OHLCVC, open-interest or market-value
/// row holds the event field of the same name.
pub proof fn payload_columns_hold_their_fields(d: StreamData, r: BatchRow)
    requires
        row_of(d, r),
    ensures
        d matches StreamData::Trade { price, size, exchange, sequence, condition, .. } ==> {
            &&& r.price == Some(price) && r.size == Some(size) && r.exchange == Some(exchange)
            &&& r.sequence == Some(sequence) && r.condition == Some(condition)
        },
        d matches StreamData::Ohlcvc { open, high, low, close, volume, count, .. } ==> {
            &&& r.open == Some(open) && r.high == Some(high) && r.low == Some(low)
            &&& r.close == Some(close) && r.volume == Some(volume) && r.count == Some(count)
        },
        d matches StreamData::OpenInterest { open_interest, .. } ==> r.open_interest == Some(open_interest),
        d matches StreamData::MarketValue { market_bid, market_ask, market_price, .. } ==> {
            &&& r.market_bid == Some(market_bid) && r.market_ask == Some(market_ask)
            &&& r.market_price == Some(market_price)
        },
{
}

} // verus!
