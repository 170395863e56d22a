use thetadatadx::vocabulary::vendor_column_name;

#[test]
fn a_column_carrying_the_vendor_name_reports_no_rename() {
    for same in ["bid", "ask", "ms_of_day", "date", "condition", "exchange"] {
        assert_eq!(vendor_column_name(same), None, "{same}");
    }
}

#[test]
fn renamed_columns_map_to_vendor_names() {
    assert_eq!(vendor_column_name("implied_volatility"), Some("IMPLIED_VOL"));
    assert_eq!(vendor_column_name("ask_implied_volatility"), Some("ASK_IMPLIED_VOL"));
    assert_eq!(vendor_column_name("bid_implied_volatility"), Some("BID_IMPLIED_VOL"));
    assert_eq!(vendor_column_name("underlying_ms_of_day"), Some("MS_OF_DAY2"));
    assert_eq!(vendor_column_name("quote_ms_of_day"), Some("MS_OF_DAY2"));
}
