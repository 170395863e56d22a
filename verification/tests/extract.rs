use thetadatadx::price::Price;
use thetadatadx::table::{
    extract_number_column, extract_price_column, extract_text_column, response_symbol, DataTable,
    DataType, DataValue, DataValueList, ProtoPrice, ResponseSymbol,
};

fn cell(dt: DataType) -> DataValue {
    DataValue { data_type: Some(dt) }
}

fn text(s: &str) -> DataValue {
    cell(DataType::Text(s.to_string()))
}

fn price_table(header: &str, cells: &[(i32, i32)]) -> DataTable {
    DataTable {
        headers: vec![header.to_string()],
        data_table: cells
            .iter()
            .map(|(v, t)| DataValueList {
                values: vec![cell(DataType::Price(ProtoPrice { value: *v, price_type: *t }))],
            })
            .collect(),
    }
}

#[test]
fn extract_text_column_resolves_via_header_alias() {
    let table = DataTable {
        headers: vec!["symbol".to_string()],
        data_table: vec![
            DataValueList { values: vec![text("AAPL")] },
            DataValueList { values: vec![text("MSFT")] },
        ],
    };
    let column = extract_text_column(&table, "root");
    assert_eq!(column, vec![Some("AAPL".to_string()), Some("MSFT".to_string())]);
}

#[test]
fn extract_text_column_coerces_number_cell_to_string() {
    let table = DataTable {
        headers: vec!["date".to_string()],
        data_table: vec![
            DataValueList { values: vec![cell(DataType::Number(20260413))] },
            DataValueList { values: vec![cell(DataType::Number(20260414))] },
        ],
    };
    let column = extract_text_column(&table, "date");
    assert_eq!(column, vec![Some("20260413".to_string()), Some("20260414".to_string())]);
}

#[test]
fn response_symbol_reads_root_via_symbol_alias() {
    let table = DataTable {
        headers: vec!["symbol".to_string(), "price".to_string()],
        data_table: vec![
            DataValueList { values: vec![text("SPY"), cell(DataType::Number(1))] },
            DataValueList { values: vec![text("SPY"), cell(DataType::Number(2))] },
        ],
    };
    assert_eq!(response_symbol(&table), ResponseSymbol::Constant("SPY".into()));
}

#[test]
fn response_symbol_absent_header_is_none() {
    let table = DataTable {
        headers: vec!["ms_of_day".to_string(), "price".to_string()],
        data_table: vec![DataValueList {
            values: vec![cell(DataType::Number(1)), cell(DataType::Number(2))],
        }],
    };
    assert_eq!(response_symbol(&table), ResponseSymbol::Absent);
}

#[test]
fn response_symbol_varying_column_is_per_row() {
    let row = |sym: &str| DataValueList { values: vec![text(sym)] };
    let table = DataTable {
        headers: vec!["symbol".to_string()],
        data_table: vec![row("AAPL"), row("MSFT"), row("SPY")],
    };
    assert_eq!(
        response_symbol(&table),
        ResponseSymbol::PerRow(vec!["AAPL".into(), "MSFT".into(), "SPY".into()]),
        "a per-row-varying symbol must carry one value per row",
    );
}

#[test]
fn response_symbol_null_first_cell_keeps_later_per_row_values() {
    let table = DataTable {
        headers: vec!["symbol".to_string()],
        data_table: vec![
            DataValueList { values: vec![DataValue { data_type: None }] },
            DataValueList { values: vec![text("MSFT")] },
            DataValueList { values: vec![text("SPY")] },
        ],
    };
    assert_eq!(
        response_symbol(&table),
        ResponseSymbol::PerRow(vec!["".into(), "MSFT".into(), "SPY".into()])
    );
}

#[test]
fn response_symbol_non_text_cell_is_none() {
    let table = DataTable {
        headers: vec!["symbol".to_string()],
        data_table: vec![DataValueList { values: vec![cell(DataType::Number(0))] }],
    };
    assert_eq!(response_symbol(&table), ResponseSymbol::Absent);
}

#[test]
fn response_symbol_header_present_no_rows_is_empty() {
    let table = DataTable { headers: vec!["symbol".to_string()], data_table: Vec::new() };
    assert_eq!(response_symbol(&table), ResponseSymbol::Constant("".into()));
}

#[test]
fn extract_text_column_empty_table_returns_empty_vec() {
    let table = DataTable { headers: vec!["symbol".to_string()], data_table: Vec::new() };
    assert_eq!(extract_text_column(&table, "missing"), Vec::<Option<String>>::new());
}

#[test]
fn extract_number_column_resolves_via_header_alias() {
    let table = DataTable {
        headers: vec!["timestamp".to_string()],
        data_table: vec![DataValueList { values: vec![cell(DataType::Number(123))] }],
    };
    let column = extract_number_column(&table, "ms_of_day");
    assert_eq!(column, vec![Some(123)]);
}

#[test]
fn extract_price_column_drops_price_type_20() {
    let table = price_table("price", &[(100, 20)]);
    let col = extract_price_column(&table, "price");
    assert_eq!(col, vec![None]);
}

#[test]
fn extract_price_column_drops_price_type_21() {
    let table = price_table("price", &[(100, 21)]);
    let col = extract_price_column(&table, "price");
    assert_eq!(col, vec![None]);
}

#[test]
fn extract_price_column_drops_price_type_i32_max() {
    let table = price_table("price", &[(100, i32::MAX)]);
    let col = extract_price_column(&table, "price");
    assert_eq!(col, vec![None]);
}

#[test]
fn extract_price_column_drops_negative_price_type() {
    let table = price_table("price", &[(100, -1)]);
    let col = extract_price_column(&table, "price");
    assert_eq!(col, vec![None]);
}

#[test]
fn extract_price_column_keeps_price_type_19_at_boundary() {
    let table = price_table("price", &[(100, 19)]);
    let col = extract_price_column(&table, "price");
    assert_eq!(col.len(), 1);
    let p = col[0].expect("price_type=19 must round-trip");
    assert_eq!(p.value(), 100);
    assert_eq!(p.price_type(), 19);
}

#[test]
fn extract_price_column_keeps_typical_price_type_10() {
    let table = price_table("price", &[(12345, 10)]);
    let col = extract_price_column(&table, "price");
    let p: Price = col[0].expect("in-range price must round-trip");
    assert_eq!(p.value(), 12345);
    assert_eq!(p.price_type(), 10);
}

#[test]
fn extract_text_column_drops_price_with_out_of_range_price_type() {
    let table = price_table("price", &[(100, 20)]);
    let col = extract_text_column(&table, "price");
    assert_eq!(col, vec![None]);
}

#[test]
fn extract_text_column_keeps_price_at_boundary() {
    let table = price_table("price", &[(100, 19)]);
    let col = extract_text_column(&table, "price");
    assert_eq!(col.len(), 1);
    assert!(col[0].is_some());
}

#[test]
fn extract_text_column_renders_price_cells_as_decimals() {
    let table = price_table("price", &[(15_025, 8), (100, 10), (-5, 9), (0, 3), (7, 12), (1, 0), (120, 9)]);
    let col = extract_text_column(&table, "price");
    assert_eq!(
        col,
        vec![
            Some("150.25".to_string()),
            Some("100".to_string()),
            Some("-0.5".to_string()),
            Some("0".to_string()),
            Some("700".to_string()),
            Some("0.0000000001".to_string()),
            Some("12".to_string()),
        ]
    );
}

#[test]
fn missing_column_and_short_rows() {
    let table = DataTable {
        headers: vec!["a".to_string(), "b".to_string()],
        data_table: vec![
            DataValueList { values: vec![cell(DataType::Number(1))] },
            DataValueList { values: vec![cell(DataType::Number(2)), cell(DataType::Number(3))] },
        ],
    };
    assert_eq!(extract_number_column(&table, "b"), vec![None, Some(3)]);
    assert_eq!(extract_number_column(&table, "zzz"), Vec::<Option<i64>>::new());
    assert_eq!(extract_text_column(&table, "a"), vec![Some("1".to_string()), Some("2".to_string())]);
}

#[test]
fn exact_header_wins_over_alias() {
    let table = DataTable {
        headers: vec!["symbol".to_string(), "root".to_string()],
        data_table: vec![DataValueList { values: vec![text("ALIAS"), text("EXACT")] }],
    };
    assert_eq!(extract_text_column(&table, "root"), vec![Some("EXACT".to_string())]);
}
