use thetadatadx::contract::Contract;
use thetadatadx::enums::{SecType, StreamMsgType};
use thetadatadx::subscription::{
    full_stream_sec_type_supported, FullSubscriptionKind, SecTypeExt, Subscription, SubscriptionKind,
};

#[test]
fn subscription_kind_codes() {
    assert_eq!(SubscriptionKind::Quote.subscribe_code(), StreamMsgType::Quote);
    assert_eq!(SubscriptionKind::Quote.unsubscribe_code(), StreamMsgType::RemoveQuote);
    assert_eq!(SubscriptionKind::Trade.subscribe_code(), StreamMsgType::Trade);
    assert_eq!(SubscriptionKind::Trade.unsubscribe_code(), StreamMsgType::RemoveTrade);
    assert_eq!(SubscriptionKind::OpenInterest.subscribe_code(), StreamMsgType::OpenInterest);
    assert_eq!(
        SubscriptionKind::OpenInterest.unsubscribe_code(),
        StreamMsgType::RemoveOpenInterest
    );
}

#[test]
fn subscription_kind_str_is_snake_case() {
    assert_eq!(SubscriptionKind::Quote.kind_str(), "quote");
    assert_eq!(SubscriptionKind::Trade.kind_str(), "trade");
    assert_eq!(SubscriptionKind::OpenInterest.kind_str(), "open_interest");
    assert_eq!(SubscriptionKind::MarketValue.kind_str(), "market_value");
}

#[test]
fn subscription_kind_full_str_prefixes_and_filters() {
    assert_eq!(SubscriptionKind::Trade.full_kind_str(), Some("full_trades"));
    assert_eq!(SubscriptionKind::OpenInterest.full_kind_str(), Some("full_open_interest"));
    assert_eq!(SubscriptionKind::Quote.full_kind_str(), None);
    assert_eq!(SubscriptionKind::MarketValue.full_kind_str(), None);
}

#[test]
fn full_subscription_kind_str_is_prefixed() {
    assert_eq!(FullSubscriptionKind::Trades.kind_str(), "full_trades");
    assert_eq!(FullSubscriptionKind::OpenInterest.kind_str(), "full_open_interest");
}

#[test]
fn full_open_interest_never_collides_with_per_contract() {
    assert_ne!(
        SubscriptionKind::OpenInterest.kind_str(),
        FullSubscriptionKind::OpenInterest.kind_str()
    );
}

#[test]
fn contract_quote_returns_per_contract_subscription() {
    let c = Contract::stock("AAPL");
    let sub = c.quote();
    assert_eq!(sub, Subscription::Contract { contract: c, kind: SubscriptionKind::Quote });
}

#[test]
fn sec_type_full_trades_returns_full_subscription() {
    let sub = SecType::Option.full_trades();
    assert_eq!(
        sub,
        Subscription::Full { sec_type: SecType::Option, kind: FullSubscriptionKind::Trades }
    );
}

#[test]
fn sec_type_full_open_interest_returns_full_subscription() {
    let sub = SecType::Stock.full_open_interest();
    assert_eq!(
        sub,
        Subscription::Full { sec_type: SecType::Stock, kind: FullSubscriptionKind::OpenInterest }
    );
}

#[test]
fn full_stream_supported_only_for_stock_and_option() {
    assert!(full_stream_sec_type_supported(SecType::Stock));
    assert!(full_stream_sec_type_supported(SecType::Option));
    assert!(!full_stream_sec_type_supported(SecType::Index));
    assert!(!full_stream_sec_type_supported(SecType::Rate));
    assert!(!full_stream_sec_type_supported(SecType::Unknown));
}

#[test]
fn market_value_unsubscribes_with_its_own_remove_code() {
    assert_eq!(SubscriptionKind::MarketValue.subscribe_code(), StreamMsgType::MarketValue);
    assert_eq!(
        SubscriptionKind::MarketValue.unsubscribe_code(),
        StreamMsgType::RemoveMarketValue
    );
    assert_eq!(StreamMsgType::RemoveMarketValue.code(), 54);
    assert_eq!(StreamMsgType::MarketValue.code(), 25);
}

#[test]
fn unsubscribe_code_is_thirty_above_subscribe_code() {
    for k in [SubscriptionKind::Quote, SubscriptionKind::Trade, SubscriptionKind::OpenInterest] {
        assert_eq!(k.unsubscribe_code().code(), k.subscribe_code().code() + 30);
    }
}

#[test]
fn fluent_constructors_carry_the_contract() {
    let c = Contract::stock("MSFT");
    assert_eq!(c.trade(), Subscription::Contract { contract: c.clone(), kind: SubscriptionKind::Trade });
    assert_eq!(
        c.open_interest(),
        Subscription::Contract { contract: c.clone(), kind: SubscriptionKind::OpenInterest }
    );
    assert_eq!(
        c.market_value(),
        Subscription::Contract { contract: c, kind: SubscriptionKind::MarketValue }
    );
}

fn spy_550_option(is_call: bool) -> Contract {
    Contract {
        symbol: "SPY".to_string(),
        sec_type: SecType::Option,
        expiration: Some(20260620),
        is_call: Some(is_call),
        strike_thousandths: Some(550_000),
    }
}

#[test]
fn contract_trade_returns_per_contract_subscription() {
    let c = spy_550_option(true);
    match c.trade() {
        Subscription::Contract { contract, kind } => {
            assert_eq!(contract, c);
            assert_eq!(kind, SubscriptionKind::Trade);
        }
        other => panic!("expected Contract variant, got {other:?}"),
    }
}

#[test]
fn contract_open_interest_returns_per_contract_subscription() {
    let c = spy_550_option(false);
    assert!(matches!(c.open_interest(), Subscription::Contract { kind: SubscriptionKind::OpenInterest, .. }));
}
