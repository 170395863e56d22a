use thetadatadx::endpoints::{by_category, find, EndpointMeta, ParamMeta, SymbolInput};

#[derive(Debug, Clone, Copy, PartialEq)]
enum ParamType {
    Symbol,
    Date,
}

#[derive(Debug, Clone, Copy, PartialEq)]
enum ReturnType {
    Ticks,
    Names,
}

static EOD_PARAMS: [ParamMeta<ParamType>; 2] = [
    ParamMeta { name: "symbol", description: "Ticker", param_type: ParamType::Symbol, required: true },
    ParamMeta { name: "start_date", description: "First day", param_type: ParamType::Date, required: true },
];

fn registry() -> Vec<EndpointMeta<ParamType, ReturnType>> {
    vec![
        EndpointMeta {
            name: "stock_list_symbols",
            description: "All stock symbols",
            category: "stock",
            subcategory: "list",
            rest_path: "/v3/stock/list/symbols",
            params: &[],
            returns: ReturnType::Names,
        },
        EndpointMeta {
            name: "stock_history_eod",
            description: "End-of-day history",
            category: "stock",
            subcategory: "history",
            rest_path: "/v3/stock/history/eod",
            params: &EOD_PARAMS,
            returns: ReturnType::Ticks,
        },
        EndpointMeta {
            name: "index_history_eod",
            description: "Index end-of-day history",
            category: "index",
            subcategory: "history",
            rest_path: "/v3/index/history/eod",
            params: &EOD_PARAMS,
            returns: ReturnType::Ticks,
        },
    ]
}

#[test]
fn find_works() {
    let table = registry();
    assert!(find(&table, "stock_history_eod").is_some());
    assert!(find(&table, "nonexistent").is_none());
}

#[test]
fn find_returns_the_named_entry() {
    let table = registry();
    let e = find(&table, "index_history_eod").unwrap();
    assert_eq!(e.category, "index");
    assert_eq!(e.params.len(), 2);
    assert_eq!(e.params[0].param_type, ParamType::Symbol);
    assert_eq!(e.returns, ReturnType::Ticks);
}

#[test]
fn by_category_keeps_registry_order() {
    let table = registry();
    let stock: Vec<&str> = by_category(&table, "stock").iter().map(|e| e.name).collect();
    assert_eq!(stock, vec!["stock_list_symbols", "stock_history_eod"]);
    assert_eq!(by_category(&table, "index").len(), 1);
    assert!(by_category(&table, "rate").is_empty());
    let total: usize = ["stock", "index"].iter().map(|c| by_category(&table, c).len()).sum();
    assert_eq!(total, table.len());
}

#[test]
fn symbol_input_from_one_symbol() {
    let one = SymbolInput::from_str_slice("AAPL").into_vec();
    assert_eq!(one, vec!["AAPL".to_string()]);
    let owned = SymbolInput::single("SPY".to_string()).into_vec();
    assert_eq!(owned, vec!["SPY".to_string()]);
}

#[test]
fn symbol_input_keeps_several_symbols_in_order() {
    let from_slices = SymbolInput::from_strs(&["AAPL", "MSFT", "AAPL"]).into_vec();
    assert_eq!(from_slices, vec!["AAPL".to_string(), "MSFT".to_string(), "AAPL".to_string()]);
    let from_strings = SymbolInput::from_strings(vec!["QQQ".to_string(), "IWM".to_string()]).into_vec();
    assert_eq!(from_strings, vec!["QQQ".to_string(), "IWM".to_string()]);
    assert!(SymbolInput::from_strs(&[]).into_vec().is_empty());
}
