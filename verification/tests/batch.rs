use thetadatadx::batch::{batch_row, estimated_ipc_len, StreamBatchBuilder, EST_IPC_BYTES_PER_ROW};
use thetadatadx::contract::Contract;
use thetadatadx::enums::SecType;
use thetadatadx::events::{StreamControl, StreamData, StreamEvent};
use thetadatadx::price::Price;

fn price(v: i32, t: i32) -> Price {
    Price::with_value_and_type(v, t).unwrap()
}

fn trade(contract: &Contract) -> StreamEvent {
    StreamEvent::Data(StreamData::Trade {
        contract: contract.clone(),
        ms_of_day: 100,
        sequence: 7,
        condition: 0,
        size: 10,
        exchange: 4,
        price: price(12_345, 8),
        date: 20_260_101,
        received_at_ns: 1,
    })
}

#[test]
fn estimated_ipc_len_scales_with_rows_not_capacity() {
    assert!(estimated_ipc_len(0) < 64 * 1024, "empty batch seed must be small");
    assert!(
        estimated_ipc_len(1) < 64 * 1024,
        "one-row batch seed must be small, not the batch-size-wide capacity"
    );
    let full = estimated_ipc_len(65_536);
    assert!(
        full >= 65_536 * EST_IPC_BYTES_PER_ROW,
        "a full batch seeds at least the per-row estimate times the rows"
    );
    assert!(full > estimated_ipc_len(1) * 1000, "the seed scales with row count");
    assert_eq!(estimated_ipc_len(usize::MAX), usize::MAX, "the estimate saturates rather than wrapping");
}

#[test]
fn estimated_ipc_len_exact_values() {
    assert_eq!(estimated_ipc_len(0), 16 * 1024);
    assert_eq!(estimated_ipc_len(2), 2 * 256 + 16 * 1024);
}

#[test]
fn trade_row_fills_trade_columns_and_nulls_others() {
    let c = Contract::stock("AAPL");
    let mut b = StreamBatchBuilder::with_capacity(8);
    assert!(b.append(&trade(&c)));
    assert_eq!(b.len(), 1);
    let rows = b.finish().expect("one row buffered");
    assert!(b.is_empty());
    let r = &rows[0];
    assert_eq!(r.event_type, "trade");
    assert_eq!(r.symbol, "AAPL");
    assert_eq!(r.sec_type, 0);
    assert_eq!(r.expiration, None);
    assert_eq!(r.right, None);
    assert_eq!(r.price, Some(price(12_345, 8)));
    assert_eq!(r.size, Some(10));
    assert_eq!(r.sequence, Some(7));
    assert_eq!(r.bid, None);
    assert_eq!(r.open_interest, None);
    assert_eq!(r.volume, None);
    assert_eq!(r.market_price, None);
}

#[test]
fn control_events_are_skipped_and_empty_finish_yields_none() {
    let mut b = StreamBatchBuilder::with_capacity(4);
    assert!(!b.append(&StreamEvent::Control(StreamControl::MarketOpen)));
    assert!(b.is_empty());
    assert!(b.finish().is_none());
}

#[test]
fn option_contract_fills_identity_columns() {
    let c = Contract {
        symbol: "SPY".to_string(),
        sec_type: SecType::Option,
        expiration: Some(20_260_620),
        is_call: Some(false),
        strike_thousandths: Some(550_000),
    };
    let row = batch_row(&StreamData::OpenInterest {
        contract: c,
        ms_of_day: 1,
        open_interest: 42,
        date: 20_260_101,
        received_at_ns: 9,
    });
    assert_eq!(row.event_type, "open_interest");
    assert_eq!(row.sec_type, 1);
    assert_eq!(row.expiration, Some(20_260_620));
    assert_eq!(row.strike_thousandths, Some(550_000));
    assert_eq!(row.right, Some("P"));
    assert_eq!(row.open_interest, Some(42));
    assert_eq!(row.price, None);
}

#[test]
fn mixed_variants_share_one_batch_in_order() {
    let c = Contract::stock("QQQ");
    let mut b = StreamBatchBuilder::with_capacity(2);
    b.append(&trade(&c));
    b.append_data(&StreamData::MarketValue {
        contract: c.clone(),
        ms_of_day: 5,
        market_bid: price(1, 8),
        market_ask: price(3, 8),
        market_price: price(2, 8),
        date: 1,
        received_at_ns: 2,
    });
    b.append_data(&StreamData::Ohlcvc {
        contract: c,
        ms_of_day: 6,
        open: price(1, 8),
        high: price(4, 8),
        low: price(1, 8),
        close: price(2, 8),
        volume: 3_000_000_000,
        count: 5,
        date: 1,
        received_at_ns: 3,
    });
    let rows = b.finish().unwrap();
    assert_eq!(rows.len(), 3);
    assert_eq!(rows[0].event_type, "trade");
    assert_eq!(rows[1].event_type, "market_value");
    assert_eq!(rows[1].market_price, Some(price(2, 8)));
    assert_eq!(rows[2].event_type, "ohlcvc");
    assert_eq!(rows[2].volume, Some(3_000_000_000));
    assert_eq!(rows[2].market_bid, None);
}
