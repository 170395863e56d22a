use thetadatadx::delta::{stop_window_open, DeltaState as StopState, STOP_SUPPRESS_MS};
use thetadatadx::contract::Contract;
use thetadatadx::decode::{decode_frame, unresolved_sentinel, ContractCache, FrameBody};
use thetadatadx::delta::{DeltaState, FitRow, TickFields, MAX_DATA_FIELDS, TRADE_FIELDS};
use thetadatadx::enums::{RemoveReason, SecType, StreamMsgType, StreamResponseType};
use thetadatadx::events::{FpssEventInternal, StreamControl, StreamData};
use thetadatadx::price::Price;

fn row(fields: &[i32]) -> FitRow {
    FitRow { fields: fields.to_vec(), is_date: false, row_complete: true }
}

struct Session {
    authenticated: bool,
    shutdown: bool,
    contracts: ContractCache,
    delta: DeltaState,
}

impl Session {
    fn new() -> Self {
        Session {
            authenticated: true,
            shutdown: false,
            contracts: ContractCache::new(),
            delta: DeltaState::new(),
        }
    }

    fn decode(&mut self, code: StreamMsgType, body: FrameBody) -> Option<FpssEventInternal> {
        decode_frame(
            code,
            body,
            77,
            &mut self.authenticated,
            &mut self.contracts,
            &mut self.shutdown,
            &mut self.delta,
        )
    }
}

fn price(v: i32, t: i32) -> Price {
    Price::with_value_and_type(v, t).unwrap()
}

#[test]
fn eight_field_trade_emits_trade_data() {
    let mut s = Session::new();
    s.contracts.insert(100, Contract::stock("AAPL"));
    let evt = s
        .decode(
            StreamMsgType::Trade,
            FrameBody::Tick(row(&[100, 34_200_000, 12_345, 50, 6, 5_500_000, 57, 6, 20_250_428])),
        )
        .expect("trade event");
    match evt {
        FpssEventInternal::Data(StreamData::Trade {
            contract,
            ms_of_day,
            sequence,
            size,
            condition,
            price: p,
            exchange,
            date,
            received_at_ns,
        }) => {
            assert_eq!(contract.symbol, "AAPL");
            assert_eq!(ms_of_day, 34_200_000);
            assert_eq!(sequence, 12_345);
            assert_eq!(size, 50);
            assert_eq!(condition, 6);
            assert_eq!(p, price(5_500_000, 6));
            assert_eq!(exchange, 57);
            assert_eq!(date, 20_250_428);
            assert_eq!(received_at_ns, 77);
        }
        other => panic!("expected a trade, got {other:?}"),
    }
}

#[test]
fn off_spec_and_narrow_widths_are_unparseable() {
    let mut s = Session::new();
    let wide = row(&[300, 34_200_000, 12_345, 50, 6, 5_500_000, 57, 6, 20_250_428, 1, 2]);
    assert_eq!(s.decode(StreamMsgType::Trade, FrameBody::Tick(wide)), Some(FpssEventInternal::Unparseable));
    let narrow_quote = row(&[400, 34_200_000, 10, 5, 15_025, 0, 20, 6, 15_030, 0]);
    assert_eq!(
        s.decode(StreamMsgType::Quote, FrameBody::Tick(narrow_quote)),
        Some(FpssEventInternal::Unparseable)
    );
    let narrow_bar = row(&[500, 34_200_000, 15_000, 15_100, 14_900, 15_050, 1_000, 6]);
    assert_eq!(
        s.decode(StreamMsgType::Ohlcvc, FrameBody::Tick(narrow_bar)),
        Some(FpssEventInternal::Unparseable)
    );
}

#[test]
fn control_frames_map_to_typed_events() {
    let mut s = Session::new();
    assert_eq!(
        s.decode(StreamMsgType::Connected, FrameBody::Raw(vec![])),
        Some(FpssEventInternal::Control(StreamControl::Connected))
    );
    assert_eq!(
        s.decode(StreamMsgType::Ping, FrameBody::Raw(vec![0, 1, 2])),
        Some(FpssEventInternal::Control(StreamControl::Ping { payload: vec![0, 1, 2] }))
    );
    assert_eq!(
        s.decode(StreamMsgType::Reconnected, FrameBody::Raw(vec![])),
        Some(FpssEventInternal::Control(StreamControl::ReconnectedServer))
    );
    assert_eq!(
        s.decode(StreamMsgType::Info, FrameBody::Raw(vec![9])),
        Some(FpssEventInternal::Control(StreamControl::UnknownFrame { code: 2, payload: vec![9] }))
    );
    assert_eq!(
        s.decode(StreamMsgType::ReqResponse, FrameBody::ReqResponse(Ok((4, StreamResponseType::Subscribed)))),
        Some(FpssEventInternal::Control(StreamControl::ReqResponse {
            req_id: 4,
            result: StreamResponseType::Subscribed
        }))
    );
    match s.decode(StreamMsgType::ReqResponse, FrameBody::ReqResponse(Err("short".to_string()))) {
        Some(FpssEventInternal::Control(StreamControl::Error { message })) => {
            assert_eq!(message, "failed to parse REQ_RESPONSE: short")
        }
        other => panic!("{other:?}"),
    }
}

#[test]
fn metadata_authenticates_and_disconnect_clears_it() {
    let mut s = Session::new();
    s.authenticated = false;
    assert_eq!(
        s.decode(StreamMsgType::Metadata, FrameBody::Raw(b"STOCK.PRO".to_vec())),
        Some(FpssEventInternal::Control(StreamControl::LoginSuccess { permissions: "STOCK.PRO".to_string() }))
    );
    assert!(s.authenticated);
    let evt = s.decode(
        StreamMsgType::Disconnected,
        FrameBody::Disconnect { reason: RemoveReason::InvalidCredentials, permanent: true },
    );
    assert_eq!(
        evt,
        Some(FpssEventInternal::Control(StreamControl::Disconnected { reason: RemoveReason::InvalidCredentials }))
    );
    assert!(!s.authenticated);
    assert!(s.shutdown);
}

#[test]
fn error_frames_skip_binary_payloads() {
    let mut s = Session::new();
    assert_eq!(s.decode(StreamMsgType::Error, FrameBody::Raw(vec![0x01, 0x02])), None);
    assert_eq!(
        s.decode(StreamMsgType::Error, FrameBody::Raw(b"bad request".to_vec())),
        Some(FpssEventInternal::Control(StreamControl::ServerError { message: "bad request".to_string() }))
    );
}

#[test]
fn restart_clears_delta_state_and_contracts() {
    let mut s = Session::new();
    s.contracts.insert(42, Contract::stock("SEED"));
    assert!(s
        .decode(
            StreamMsgType::Trade,
            FrameBody::Tick(row(&[42, 34_200_000, 1, 50, 6, 5_500_000, 57, 6, 20_250_428]))
        )
        .is_some());
    assert_ne!(s.delta.state_sizes().0, 0);
    assert_eq!(
        s.decode(StreamMsgType::Restart, FrameBody::Raw(vec![])),
        Some(FpssEventInternal::Control(StreamControl::Restart))
    );
    assert_eq!(s.delta.state_sizes(), (0, 0));
    assert!(s.contracts.is_empty());
    let evt = s.decode(StreamMsgType::Quote, FrameBody::Tick(row(&[42, 0, 0, 0, 0, 0, 0, 0, 0, 0, 0, 0])));
    match evt {
        Some(FpssEventInternal::Data(StreamData::Quote { contract, .. })) => {
            assert_eq!(contract.sec_type, SecType::Unknown);
            assert_eq!(contract.symbol, "__pending:42");
        }
        other => panic!("{other:?}"),
    }
}

#[test]
fn server_reconnect_resets_delta_state_so_next_tick_is_fresh_baseline() {
    let mut s = Session::new();
    let abs = |p: i32| row(&[200, 34_200_000, 1, 100, 0, p, 57, 8, 20_250_428]);
    s.contracts.insert(200, Contract::stock("SPY"));
    let price_of = |e: Option<FpssEventInternal>| match e {
        Some(FpssEventInternal::Data(StreamData::Trade { price, .. })) => price,
        other => panic!("{other:?}"),
    };
    let p0 = price_of(s.decode(StreamMsgType::Trade, FrameBody::Tick(abs(18_750_000))));
    assert_eq!(p0, price(18_750_000, 8));
    s.decode(StreamMsgType::Reconnected, FrameBody::Raw(vec![]));
    s.contracts.insert(200, Contract::stock("SPY"));
    let p1 = price_of(s.decode(StreamMsgType::Trade, FrameBody::Tick(abs(99_990_000))));
    assert_eq!(p1, price(99_990_000, 8));
}

#[test]
fn delta_rows_accumulate_onto_the_baseline() {
    let mut s = Session::new();
    s.decode(StreamMsgType::Trade, FrameBody::Tick(row(&[5, 1_000, 1, 10, 0, 100, 57, 8, 20_250_428])));
    let evt = s.decode(StreamMsgType::Trade, FrameBody::Tick(row(&[5, 10, 1, 0, 0, 5])));
    match evt {
        Some(FpssEventInternal::Data(StreamData::Trade { ms_of_day, sequence, price: p, date, .. })) => {
            assert_eq!(ms_of_day, 1_010);
            assert_eq!(sequence, 2);
            assert_eq!(p, price(105, 8));
            assert_eq!(date, 20_250_428);
        }
        other => panic!("{other:?}"),
    }
}

#[test]
fn contract_assignment_resolves_later_ticks() {
    let mut s = Session::new();
    let evt = s.decode(StreamMsgType::Contract, FrameBody::Contract(Ok((777, Contract::stock("AAPL")))));
    assert_eq!(
        evt,
        Some(FpssEventInternal::Control(StreamControl::ContractAssigned { id: 777, contract: Contract::stock("AAPL") }))
    );
    match s.decode(StreamMsgType::Quote, FrameBody::Tick(row(&[777, 0, 0, 0, 0, 0, 0, 0, 0, 0, 0, 0]))) {
        Some(FpssEventInternal::Data(StreamData::Quote { contract, .. })) => assert_eq!(contract.symbol, "AAPL"),
        other => panic!("{other:?}"),
    }
    match s.decode(StreamMsgType::Contract, FrameBody::Contract(Err("bad bytes".to_string()))) {
        Some(FpssEventInternal::Control(StreamControl::Error { message })) => {
            assert_eq!(message, "failed to parse CONTRACT message: bad bytes")
        }
        other => panic!("{other:?}"),
    }
}

#[test]
fn invalid_price_types_are_unparseable() {
    let mut s = Session::new();
    let quote = row(&[300, 34_200_000, 10, 4, 15_025, 0, 12, 4, 15_030, 0, 20, 20_250_428]);
    assert_eq!(s.decode(StreamMsgType::Quote, FrameBody::Tick(quote)), Some(FpssEventInternal::Unparseable));
    let trade = row(&[400, 34_200_000, 12_345, 50, 6, 5_500_000, 57, 21, 20_250_428]);
    assert_eq!(s.decode(StreamMsgType::Trade, FrameBody::Tick(trade)), Some(FpssEventInternal::Unparseable));
    let bar = row(&[600, 34_200_000, 15_025, 15_100, 14_950, 15_080, 1_000, 10, -1, 20_250_428]);
    assert_eq!(s.decode(StreamMsgType::Ohlcvc, FrameBody::Tick(bar)), Some(FpssEventInternal::Unparseable));
    let mv = row(&[301, 34_200_000, 10, 4, 15_025, 0, 12, 4, 15_030, 0, 20, 20_250_428]);
    assert_eq!(s.decode(StreamMsgType::MarketValue, FrameBody::Tick(mv)), Some(FpssEventInternal::Unparseable));
}

#[test]
fn ohlcvc_volume_count_are_unsigned() {
    let mut s = Session::new();
    let bar = row(&[
        600,
        34_200_000,
        15_025,
        15_100,
        14_950,
        15_080,
        -2_069_356_102,
        -2_008_126_979,
        8,
        20_250_428,
    ]);
    match s.decode(StreamMsgType::Ohlcvc, FrameBody::Tick(bar)) {
        Some(FpssEventInternal::Data(StreamData::Ohlcvc { volume, count, .. })) => {
            assert_eq!(volume, 2_225_611_194_i64);
            assert_eq!(count, 2_286_840_317_i64);
        }
        other => panic!("{other:?}"),
    }
}

#[test]
fn market_value_emits_calculated_fields() {
    let mut s = Session::new();
    s.contracts.insert(100, Contract::stock("AAPL"));
    let mv = row(&[100, 34_200_000, 10, 4, 15_025, 0, 10, 4, 15_030, 0, 8, 20_250_428]);
    match s.decode(StreamMsgType::MarketValue, FrameBody::Tick(mv)) {
        Some(FpssEventInternal::Data(StreamData::MarketValue {
            market_bid,
            market_ask,
            market_price,
            date,
            ..
        })) => {
            assert_eq!(market_ask, price(15_029, 8));
            assert_eq!(market_bid, price(15_026, 8));
            assert_eq!(market_price, price(15_027, 8));
            assert_eq!(date, 20_250_428);
        }
        other => panic!("{other:?}"),
    }
}

#[test]
fn date_markers_emit_nothing_and_truncated_rows_are_unparseable() {
    let mut s = Session::new();
    let date = FitRow { fields: vec![20_250_428], is_date: true, row_complete: true };
    assert_eq!(s.decode(StreamMsgType::Quote, FrameBody::Tick(date)), None);
    let cut = FitRow { fields: vec![1, 2, 3], is_date: false, row_complete: false };
    assert_eq!(s.decode(StreamMsgType::Quote, FrameBody::Tick(cut)), Some(FpssEventInternal::Unparseable));
}

#[test]
fn delta_state_retains_every_stream() {
    let mut d = DeltaState::new();
    let mut out: TickFields = [0; MAX_DATA_FIELDS];
    for id in 0..500 {
        d.decode_tick(22, &row(&[id, 34_200_000, 0, 50, 6, 5_500_000, 57, 6, 20_250_428]), TRADE_FIELDS, &mut out)
            .expect("absolute tick decodes");
    }
    assert_eq!(d.state_sizes(), (500, 500));
    d.clear();
    assert_eq!(d.state_sizes(), (0, 0));
}

#[test]
fn sentinel_carries_the_wire_id() {
    let c = unresolved_sentinel(-17);
    assert_eq!(c.symbol, "__pending:-17");
    assert_eq!(c.sec_type, SecType::Unknown);
}

#[test]
fn stop_window_is_open_only_shortly_after_a_stop() {
    assert!(!stop_window_open(None));
    assert!(stop_window_open(Some(0)));
    assert!(stop_window_open(Some(STOP_SUPPRESS_MS - 1)));
    assert!(!stop_window_open(Some(STOP_SUPPRESS_MS)));
    assert!(!StopState::new().is_in_stop_suppression_window());
}
