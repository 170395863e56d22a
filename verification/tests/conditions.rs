use thetadatadx::conditions::{
    condition_description, condition_name, is_cancel, is_firm, is_halted, quote_condition_description,
    quote_condition_name, updates_volume, QuoteCondition, TradeCondition,
};
use thetadatadx::vocabulary::is_vendor_column;

fn trade(code: i32, name: &'static str, description: &'static str, cancel: bool, volume: bool) -> TradeCondition {
    TradeCondition {
        code,
        name,
        description,
        cancel,
        late_report: false,
        auto_executed: false,
        open_report: false,
        volume,
        high: volume,
        low: volume,
        last: volume,
    }
}

fn trades() -> Vec<TradeCondition> {
    vec![
        trade(0, "REGULAR", "Regular Trade", false, true),
        trade(1, "FORM_T", "Form T", false, true),
        trade(2, "CANC", "Cancelled trade", true, false),
    ]
}

fn quotes() -> Vec<QuoteCondition> {
    vec![
        QuoteCondition { code: 0, name: "REGULAR", description: "Regular two-sided quote", firm: true, halted: false },
        QuoteCondition { code: 1, name: "HALTED", description: "Trading halted", firm: false, halted: true },
    ]
}

#[test]
fn trade_condition_lookups_index_the_table_by_code() {
    let t = trades();
    assert_eq!(condition_name(&t, 0), "REGULAR");
    assert_eq!(condition_name(&t, 2), "CANC");
    assert_eq!(condition_description(&t, 0), "Regular Trade");
    assert!(is_cancel(&t, 2));
    assert!(!is_cancel(&t, 0));
    assert!(updates_volume(&t, 1));
    assert!(!updates_volume(&t, 2));
}

#[test]
fn trade_condition_lookups_fall_back_outside_the_table() {
    let t = trades();
    for code in [-1, 3, 9999, i32::MIN, i32::MAX] {
        assert_eq!(condition_name(&t, code), "UNKNOWN");
        assert_eq!(condition_description(&t, code), "");
        assert!(!is_cancel(&t, code));
        assert!(!updates_volume(&t, code));
    }
}

#[test]
fn quote_condition_lookups_index_the_table_by_code() {
    let q = quotes();
    assert_eq!(quote_condition_name(&q, 1), "HALTED");
    assert_eq!(quote_condition_description(&q, 0), "Regular two-sided quote");
    assert!(is_firm(&q, 0));
    assert!(is_halted(&q, 1));
    assert!(!is_halted(&q, 0));
    assert_eq!(quote_condition_name(&q, 2), "UNKNOWN");
    assert_eq!(quote_condition_description(&q, -1), "");
    assert!(!is_firm(&q, 2));
    assert!(!is_halted(&q, -1));
}

#[test]
fn vendor_column_membership() {
    let columns = ["BID", "ASK", "IMPLIED_VOL", "MS_OF_DAY2"];
    assert!(is_vendor_column(&columns, "IMPLIED_VOL"));
    assert!(is_vendor_column(&columns, "BID"));
    assert!(!is_vendor_column(&columns, "implied_volatility"));
    assert!(!is_vendor_column(&[], "BID"));
}
