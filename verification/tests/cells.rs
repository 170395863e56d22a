use thetadatadx::enums::CalendarStatus;
use thetadatadx::table::{
    cell_type, check_chunk_headers, DataTable, row_bool, row_calendar_status, row_contract_right, row_number_i64, row_price_type,
    row_price_value, row_text, DataType, DataValue, DataValueList, DecodeError, ProtoPrice,
};

fn one(dt: Option<DataType>) -> DataValueList {
    DataValueList { values: vec![DataValue { data_type: dt }] }
}

#[test]
fn text_cells() {
    assert_eq!(row_text(&one(Some(DataType::Text("x".into()))), 0), Ok(Some("x".to_string())));
    assert_eq!(row_text(&one(Some(DataType::NullValue)), 0), Ok(None));
    assert_eq!(row_text(&one(None), 0), Err(DecodeError::TypeMismatch { column: 0, expected: "Text", observed: "Unset" }));
    assert_eq!(row_text(&one(None), 3), Err(DecodeError::MissingCell { column: 3 }));
}

#[test]
fn price_cells() {
    let p = one(Some(DataType::Price(ProtoPrice { value: 5, price_type: 7 })));
    assert_eq!(row_price_value(&p, 0), Ok(Some(5)));
    assert_eq!(row_price_type(&p, 0), Ok(Some(7)));
    assert_eq!(
        row_price_value(&one(Some(DataType::Number(1))), 0),
        Err(DecodeError::TypeMismatch { column: 0, expected: "Price", observed: "Number" })
    );
}

#[test]
fn number_i64_scales_price_cells() {
    let cell = |v: i32, t: i32| one(Some(DataType::Price(ProtoPrice { value: v, price_type: t })));
    assert_eq!(row_number_i64(&cell(12_345, 10), 0), Ok(Some(12_345)));
    assert_eq!(row_number_i64(&cell(12_345, 12), 0), Ok(Some(1_234_500)));
    assert_eq!(row_number_i64(&cell(12_345, 8), 0), Ok(Some(123)));
    assert_eq!(row_number_i64(&cell(-12_345, 8), 0), Ok(Some(-123)));
    assert_eq!(row_number_i64(&cell(i32::MAX, 19), 0), Ok(Some(2_147_483_647_000_000_000)));
    assert_eq!(row_number_i64(&cell(0, 99), 0), Ok(Some(0)));
    assert_eq!(row_number_i64(&cell(1, 20), 0), Err(DecodeError::InvalidPriceType { raw: 20 }));
    assert_eq!(row_number_i64(&one(Some(DataType::Number(-9))), 0), Ok(Some(-9)));
    assert_eq!(
        row_number_i64(&one(Some(DataType::Timestamp(1))), 0),
        Err(DecodeError::TypeMismatch { column: 0, expected: "Number|Price", observed: "Timestamp" })
    );
}

#[test]
fn bool_right_and_calendar_cells() {
    assert_eq!(row_bool(&one(Some(DataType::Number(1))), 0), Ok(Some(true)));
    assert_eq!(row_bool(&one(Some(DataType::Number(0))), 0), Ok(Some(false)));
    assert_eq!(
        row_bool(&one(Some(DataType::Number(2))), 0),
        Err(DecodeError::UnknownEnumVariant { field: "bool", raw: "2".to_string() })
    );
    assert_eq!(row_contract_right(&one(Some(DataType::Number(67))), 0), Ok(Some('C')));
    assert_eq!(row_contract_right(&one(Some(DataType::Text("PUT".into()))), 0), Ok(Some('P')));
    assert_eq!(
        row_contract_right(&one(Some(DataType::Text("X".into()))), 0),
        Err(DecodeError::UnknownEnumVariant { field: "right", raw: "X".to_string() })
    );
    assert_eq!(row_calendar_status(&one(Some(DataType::Text("weekend".into()))), 0), Ok(Some(CalendarStatus::Weekend)));
    assert_eq!(row_calendar_status(&one(Some(DataType::Number(1))), 0), Ok(Some(CalendarStatus::EarlyClose)));
    assert_eq!(
        row_calendar_status(&one(Some(DataType::Number(5_000_000_000))), 0),
        Err(DecodeError::UnknownEnumVariant { field: "calendar.type", raw: "5000000000".to_string() })
    );
    assert!(matches!(cell_type(&one(Some(DataType::NullValue)), 0), Ok(Some(DataType::NullValue))));
    assert!(matches!(cell_type(&one(None), 1), Err(DecodeError::MissingCell { column: 1 })));
}

#[test]
fn chunk_headers_are_fixed_by_the_first_chunk() {
    let table = |h: &[&str]| DataTable { headers: h.iter().map(|s| s.to_string()).collect(), data_table: vec![] };
    let mut saved: Option<Vec<String>> = None;
    let first = check_chunk_headers(table(&["symbol", "count"]), &mut saved, 0).expect("first chunk");
    assert_eq!(first.headers, vec!["symbol", "count"]);
    assert_eq!(saved, Some(vec!["symbol".to_string(), "count".to_string()]));
    check_chunk_headers(table(&["symbol", "count"]), &mut saved, 1).expect("matching headers accepted");
    check_chunk_headers(table(&[]), &mut saved, 2).expect("headerless chunk accepted");
    match check_chunk_headers(table(&["ticker", "n"]), &mut saved, 3) {
        Err(DecodeError::ChunkHeaderDrift { chunk_index, first, chunk }) => {
            assert_eq!(chunk_index, 3);
            assert_eq!(first, "symbol,count");
            assert_eq!(chunk, "ticker,n");
        }
        other => panic!("{other:?}"),
    }
    assert_eq!(saved, Some(vec!["symbol".to_string(), "count".to_string()]));
}
