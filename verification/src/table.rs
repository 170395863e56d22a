//! Historical-data response tables and their strict per-cell decoders.
//!
//! A response is a table of named columns; every cell carries one wire
//! type (text, 64-bit number, price cell, timestamp or explicit null), or
//! none at all when the wire left the cell's type unset. The single-cell
//! decoders dispatch on that type and fail loudly on anything outside their
//! accept-set rather than coalescing it to a default.

use vstd::prelude::*;
use vstd::string::StringExecFns;

use crate::enums::{calendar_from_code, calendar_from_text, CalendarStatus};
use crate::price::{valid_price_type, Price, MAX_PRICE_TYPE};
use crate::text::{ascii_chars, ascii_string, decimal_string, decimal_text, digit_char, nat_digit_bytes, nat_digits, push_decimal, str_eq};

verus! {

/// A wire price cell: integer value and decimal-exponent price type.
#[derive(Debug, Clone, Copy, PartialEq, Eq, Structural)]
pub struct ProtoPrice {
    pub value: i32,
    pub price_type: i32,
}

/// The wire type and payload of one cell.
#[derive(Debug, Clone, PartialEq)]
pub enum DataType {
    Text(String),
    Number(i64),
    Price(ProtoPrice),
    /// Milliseconds since the Unix epoch.
    Timestamp(i64),
    NullValue,
}

/// One cell; `data_type` is `None` when the wire left it unset.
#[derive(Debug, Clone, PartialEq)]
pub struct DataValue {
    pub data_type: Option<DataType>,
}

/// One row of cells.
#[derive(Debug, Clone, PartialEq)]
pub struct DataValueList {
    pub values: Vec<DataValue>,
}

/// A response table: column headers and rows.
#[derive(Debug, Clone, PartialEq)]
pub struct DataTable {
    pub headers: Vec<String>,
    pub data_table: Vec<DataValueList>,
}

/// Why a cell or column could not be decoded.
#[derive(Debug, Clone, PartialEq, Eq)]
pub enum DecodeError {
    /// The row has no cell at this column.
    MissingCell { column: usize },
    /// The cell's wire type is outside the decoder's accept-set.
    TypeMismatch { column: usize, expected: &'static str, observed: &'static str },
    /// A number does not fit the destination width.
    NumericOverflow { raw: String },
    /// A price cell's type is outside `0..=MAX_PRICE_TYPE`.
    InvalidPriceType { raw: i32 },
    /// A value outside the field's documented vocabulary.
    UnknownEnumVariant { field: &'static str, raw: String },
    /// A streamed chunk's headers differ from the first chunk's; both are
    /// given comma-joined.
    ChunkHeaderDrift { chunk_index: usize, first: String, chunk: String },
}

/// The name an error reports for an observed cell type.
pub open spec fn observed_type_name(dt: Option<DataType>) -> Seq<char> {
    match dt {
        None => "Unset"@,
        Some(DataType::Text(_)) => "Text"@,
        Some(DataType::Number(_)) => "Number"@,
        Some(DataType::Price(_)) => "Price"@,
        Some(DataType::Timestamp(_)) => "Timestamp"@,
        Some(DataType::NullValue) => "NullValue"@,
    }
}

/// The name of an observed cell type.
pub fn observed_name(dt: Option<&DataType>) -> (r: &'static str)
    ensures
        r@ == observed_type_name(match dt {
            Some(d) => Some(*d),
            None => None,
        }),
{
    match dt {
        None => "Unset",
        Some(DataType::Text(_)) => "Text",
        Some(DataType::Number(_)) => "Number",
        Some(DataType::Price(_)) => "Price",
        Some(DataType::Timestamp(_)) => "Timestamp",
        Some(DataType::NullValue) => "NullValue",
    }
}

/// The cell at `idx`: `None` when the row is too short, otherwise the
/// cell's (possibly unset) type.
pub open spec fn cell_at(row: DataValueList, idx: int) -> Option<Option<DataType>> {
    if 0 <= idx < row.values@.len() {
        Some(row.values@[idx].data_type)
    } else {
        None
    }
}

/// Whether `r` is the type-mismatch error for column `idx`, naming the
/// accepted types and the observed one.
pub open spec fn is_mismatch<T>(
    r: Result<Option<T>, DecodeError>,
    idx: usize,
    expected: Seq<char>,
    observed: Option<DataType>,
) -> bool {
    r matches Err(DecodeError::TypeMismatch { column, expected: e, observed: o }) && column == idx && e@
        == expected && o@ == observed_type_name(observed)
}

/// Borrow the type of the cell at `idx`.
pub fn cell_type(row: &DataValueList, idx: usize) -> (r: Result<Option<&DataType>, DecodeError>)
    ensures
        cell_at(*row, idx as int) is None ==> r == Err::<Option<&DataType>, DecodeError>(
            DecodeError::MissingCell { column: idx },
        ),
        cell_at(*row, idx as int) matches Some(dt) ==> (r matches Ok(d) && match d {
            Some(x) => dt == Some(*x),
            None => dt is None,
        }),
{
    if idx >= row.values.len() {
        return Err(DecodeError::MissingCell { column: idx });
    }
    match &row.values[idx].data_type {
        Some(d) => Ok(Some(d)),
        None => Ok(None),
    }
}

/// Decode a text cell: `Text` yields its string, `NullValue` yields
/// `None`.
pub fn row_text(row: &DataValueList, idx: usize) -> (r: Result<Option<String>, DecodeError>)
    ensures
        match cell_at(*row, idx as int) {
            None => r == Err::<Option<String>, DecodeError>(DecodeError::MissingCell { column: idx }),
            Some(Some(DataType::Text(s))) => r matches Ok(Some(t)) && t@ == s@,
            Some(Some(DataType::NullValue)) => r matches Ok(None),
            Some(other) => is_mismatch(r, idx, "Text"@, other),
        },
{
    if idx >= row.values.len() {
        return Err(DecodeError::MissingCell { column: idx });
    }
    match &row.values[idx].data_type {
        Some(DataType::Text(s)) => Ok(Some(s.clone())),
        Some(DataType::NullValue) => Ok(None),
        other => Err(
            DecodeError::TypeMismatch { column: idx, expected: "Text", observed: observed_name(other.as_ref()) },
        ),
    }
}

/// Decode the raw value of a price cell.
pub fn row_price_value(row: &DataValueList, idx: usize) -> (r: Result<Option<i32>, DecodeError>)
    ensures
        match cell_at(*row, idx as int) {
            None => r == Err::<Option<i32>, DecodeError>(DecodeError::MissingCell { column: idx }),
            Some(Some(DataType::Price(p))) => r == Ok::<Option<i32>, DecodeError>(Some(p.value)),
            Some(Some(DataType::NullValue)) => r == Ok::<Option<i32>, DecodeError>(None),
            Some(other) => is_mismatch(r, idx, "Price"@, other),
        },
{
    if idx >= row.values.len() {
        return Err(DecodeError::MissingCell { column: idx });
    }
    match &row.values[idx].data_type {
        Some(DataType::Price(p)) => Ok(Some(p.value)),
        Some(DataType::NullValue) => Ok(None),
        other => Err(
            DecodeError::TypeMismatch { column: idx, expected: "Price", observed: observed_name(other.as_ref()) },
        ),
    }
}

/// Decode the price type of a price cell.
pub fn row_price_type(row: &DataValueList, idx: usize) -> (r: Result<Option<i32>, DecodeError>)
    ensures
        match cell_at(*row, idx as int) {
            None => r == Err::<Option<i32>, DecodeError>(DecodeError::MissingCell { column: idx }),
            Some(Some(DataType::Price(p))) => r == Ok::<Option<i32>, DecodeError>(Some(p.price_type)),
            Some(Some(DataType::NullValue)) => r == Ok::<Option<i32>, DecodeError>(None),
            Some(other) => is_mismatch(r, idx, "Price"@, other),
        },
{
    if idx >= row.values.len() {
        return Err(DecodeError::MissingCell { column: idx });
    }
    match &row.values[idx].data_type {
        Some(DataType::Price(p)) => Ok(Some(p.price_type)),
        Some(DataType::NullValue) => Ok(None),
        other => Err(
            DecodeError::TypeMismatch { column: idx, expected: "Price", observed: observed_name(other.as_ref()) },
        ),
    }
}

/// `10^n`.
pub open spec fn pow10(n: nat) -> int
    decreases n,
{
    if n == 0 {
        1
    } else {
        10 * pow10((n - 1) as nat)
    }
}

/// `10^n` as an `i64`, for `n <= 18`.
fn pow10_i64(n: u32) -> (r: i64)
    requires
        n <= 18,
    ensures
        r == pow10(n as nat),
{
    let mut r: i64 = 1;
    let mut i: u32 = 0;
    while i < n
        invariant
            i <= n <= 18,
            r == pow10(i as nat),
        decreases n - i,
    {
        assert(1 <= pow10(i as nat) <= 100_000_000_000_000_000) by {
            lemma_pow10_mono(i as nat, 17);
            reveal_with_fuel(pow10, 18);
        }
        r = r * 10;
        i = i + 1;
    }
    r
}

/// `10^a <= 10^b` for `a <= b`.
pub proof fn lemma_pow10_mono(a: nat, b: nat)
    requires
        a <= b,
    ensures
        1 <= pow10(a) <= pow10(b),
    decreases b,
{
    if b > a {
        lemma_pow10_mono(a, (b - 1) as nat);
    } else if a > 0 {
        lemma_pow10_mono((a - 1) as nat, (a - 1) as nat);
    }
}

/// The integer value of a price cell, `value * 10^(price_type - 10)`
/// truncated toward zero.
pub open spec fn scaled_price_value(value: i32, price_type: i32) -> int {
    if price_type >= 10 {
        value * pow10((price_type - 10) as nat)
    } else if value >= 0 {
        (value as int) / pow10((10 - price_type) as nat)
    } else {
        -((-(value as int)) / pow10((10 - price_type) as nat))
    }
}

/// Decode an `i64` cell: a number as is, a price cell scaled to its integer
/// value (`value * 10^(price_type - 10)`, truncated toward zero), a null as
/// `None`. A zero price is zero whatever its price type.
pub fn row_number_i64(row: &DataValueList, idx: usize) -> (r: Result<Option<i64>, DecodeError>)
    ensures
        match cell_at(*row, idx as int) {
            None => r == Err::<Option<i64>, DecodeError>(DecodeError::MissingCell { column: idx }),
            Some(Some(DataType::Number(n))) => r == Ok::<Option<i64>, DecodeError>(Some(n)),
            Some(Some(DataType::Price(p))) => if p.value == 0 {
                r == Ok::<Option<i64>, DecodeError>(Some(0))
            } else if !(0 <= p.price_type <= MAX_PRICE_TYPE) {
                r == Err::<Option<i64>, DecodeError>(DecodeError::InvalidPriceType { raw: p.price_type })
            } else {
                r matches Ok(Some(v)) && v == scaled_price_value(p.value, p.price_type)
            },
            Some(Some(DataType::NullValue)) => r == Ok::<Option<i64>, DecodeError>(None),
            Some(other) => is_mismatch(r, idx, "Number|Price"@, other),
        },
{
    if idx >= row.values.len() {
        return Err(DecodeError::MissingCell { column: idx });
    }
    match &row.values[idx].data_type {
        Some(DataType::Number(n)) => Ok(Some(*n)),
        Some(DataType::Price(p)) => {
            let v: i64 = p.value as i64;
            if v == 0 {
                return Ok(Some(0));
            }
            if !(0 <= p.price_type && p.price_type <= MAX_PRICE_TYPE) {
                return Err(DecodeError::InvalidPriceType { raw: p.price_type });
            }
            if p.price_type >= 10 {
                let m = pow10_i64((p.price_type - 10) as u32);
                proof {
                    lemma_pow10_mono((p.price_type - 10) as nat, 9);
                    reveal_with_fuel(pow10, 10);
                    assert(pow10(9) == 1_000_000_000);
                    assert(-2_147_483_648 * 1_000_000_000 <= v * m <= 2_147_483_647 * 1_000_000_000)
                        by (nonlinear_arith)
                        requires
                            -2_147_483_648 <= v <= 2_147_483_647,
                            1 <= m <= 1_000_000_000,
                    ;
                }
                Ok(Some(v * m))
            } else {
                let m = pow10_i64((10 - p.price_type) as u32);
                proof {
                    lemma_pow10_mono(1, (10 - p.price_type) as nat);
                }
                Ok(Some(v / m))
            }
        },
        Some(DataType::NullValue) => Ok(None),
        other => Err(
            DecodeError::TypeMismatch {
                column: idx,
                expected: "Number|Price",
                observed: observed_name(other.as_ref()),
            },
        ),
    }
}

/// Decode a boolean cell: numbers `0` and `1`.
pub fn row_bool(row: &DataValueList, idx: usize) -> (r: Result<Option<bool>, DecodeError>)
    ensures
        match cell_at(*row, idx as int) {
            None => r == Err::<Option<bool>, DecodeError>(DecodeError::MissingCell { column: idx }),
            Some(Some(DataType::Number(n))) => if n == 0 {
                r == Ok::<Option<bool>, DecodeError>(Some(false))
            } else if n == 1 {
                r == Ok::<Option<bool>, DecodeError>(Some(true))
            } else {
                r matches Err(DecodeError::UnknownEnumVariant { field, raw }) && field@ == "bool"@ && raw@
                    == decimal_text(n as int)
            },
            Some(Some(DataType::NullValue)) => r == Ok::<Option<bool>, DecodeError>(None),
            Some(other) => is_mismatch(r, idx, "Number"@, other),
        },
{
    if idx >= row.values.len() {
        return Err(DecodeError::MissingCell { column: idx });
    }
    match &row.values[idx].data_type {
        Some(DataType::Number(n)) => {
            if *n == 0 {
                Ok(Some(false))
            } else if *n == 1 {
                Ok(Some(true))
            } else {
                Err(DecodeError::UnknownEnumVariant { field: "bool", raw: decimal_string(*n) })
            }
        },
        Some(DataType::NullValue) => Ok(None),
        other => Err(
            DecodeError::TypeMismatch { column: idx, expected: "Number", observed: observed_name(other.as_ref()) },
        ),
    }
}

/// The option right a text cell names (`CALL`/`C` or `PUT`/`P`).
pub open spec fn right_from_text(s: Seq<char>) -> Option<char> {
    if s == "CALL"@ || s == "C"@ {
        Some('C')
    } else if s == "PUT"@ || s == "P"@ {
        Some('P')
    } else {
        None
    }
}

/// Decode an option-right cell to `'C'` or `'P'`: a number carries the
/// ASCII code (67 or 80), text the word or letter.
pub fn row_contract_right(row: &DataValueList, idx: usize) -> (r: Result<Option<char>, DecodeError>)
    ensures
        match cell_at(*row, idx as int) {
            None => r == Err::<Option<char>, DecodeError>(DecodeError::MissingCell { column: idx }),
            Some(Some(DataType::Number(n))) => if n == 67 {
                r == Ok::<Option<char>, DecodeError>(Some('C'))
            } else if n == 80 {
                r == Ok::<Option<char>, DecodeError>(Some('P'))
            } else {
                r matches Err(DecodeError::UnknownEnumVariant { field, raw }) && field@ == "right"@ && raw@
                    == decimal_text(n as int)
            },
            Some(Some(DataType::Text(s))) => match right_from_text(s@) {
                Some(c) => r == Ok::<Option<char>, DecodeError>(Some(c)),
                None => r matches Err(DecodeError::UnknownEnumVariant { field, raw }) && field@ == "right"@
                    && raw@ == s@,
            },
            Some(Some(DataType::NullValue)) => r == Ok::<Option<char>, DecodeError>(None),
            Some(other) => is_mismatch(r, idx, "Number|Text"@, other),
        },
{
    if idx >= row.values.len() {
        return Err(DecodeError::MissingCell { column: idx });
    }
    match &row.values[idx].data_type {
        Some(DataType::Number(n)) => {
            if *n == 67 {
                Ok(Some('C'))
            } else if *n == 80 {
                Ok(Some('P'))
            } else {
                Err(DecodeError::UnknownEnumVariant { field: "right", raw: decimal_string(*n) })
            }
        },
        Some(DataType::Text(s)) => {
            if str_eq(s.as_str(), "CALL") || str_eq(s.as_str(), "C") {
                Ok(Some('C'))
            } else if str_eq(s.as_str(), "PUT") || str_eq(s.as_str(), "P") {
                Ok(Some('P'))
            } else {
                Err(DecodeError::UnknownEnumVariant { field: "right", raw: s.clone() })
            }
        },
        Some(DataType::NullValue) => Ok(None),
        other => Err(
            DecodeError::TypeMismatch {
                column: idx,
                expected: "Number|Text",
                observed: observed_name(other.as_ref()),
            },
        ),
    }
}

/// Decode a calendar day-type cell: the vendor's text vocabulary or the
/// integer codes `0..=3`.
pub fn row_calendar_status(row: &DataValueList, idx: usize) -> (r: Result<Option<CalendarStatus>, DecodeError>)
    ensures
        match cell_at(*row, idx as int) {
            None => r == Err::<Option<CalendarStatus>, DecodeError>(DecodeError::MissingCell { column: idx }),
            Some(Some(DataType::Text(s))) => match calendar_from_text(s@) {
                Some(c) => r == Ok::<Option<CalendarStatus>, DecodeError>(Some(c)),
                None => r matches Err(DecodeError::UnknownEnumVariant { field, raw }) && field@
                    == "calendar.type"@ && raw@ == s@,
            },
            Some(Some(DataType::Number(n))) => match calendar_from_code(n as int) {
                Some(c) => r == Ok::<Option<CalendarStatus>, DecodeError>(Some(c)),
                None => r matches Err(DecodeError::UnknownEnumVariant { field, raw }) && field@
                    == "calendar.type"@ && raw@ == decimal_text(n as int),
            },
            Some(Some(DataType::NullValue)) => r == Ok::<Option<CalendarStatus>, DecodeError>(None),
            Some(other) => is_mismatch(r, idx, "Text|Number"@, other),
        },
{
    if idx >= row.values.len() {
        return Err(DecodeError::MissingCell { column: idx });
    }
    match &row.values[idx].data_type {
        Some(DataType::Text(s)) => match CalendarStatus::from_wire_text(s.as_str()) {
            Some(status) => Ok(Some(status)),
            None => Err(DecodeError::UnknownEnumVariant { field: "calendar.type", raw: s.clone() }),
        },
        Some(DataType::Number(n)) => {
            let code = if -2147483648 <= *n && *n <= 2147483647 {
                CalendarStatus::from_code(*n as i32)
            } else {
                None
            };
            match code {
                Some(status) => Ok(Some(status)),
                None => Err(DecodeError::UnknownEnumVariant { field: "calendar.type", raw: decimal_string(*n) }),
            }
        },
        Some(DataType::NullValue) => Ok(None),
        other => Err(
            DecodeError::TypeMismatch {
                column: idx,
                expected: "Text|Number",
                observed: observed_name(other.as_ref()),
            },
        ),
    }
}

/// The header texts of a table.
pub open spec fn headers_view(headers: Seq<String>) -> Seq<Seq<char>> {
    headers.map_values(|h: String| h@)
}

/// The wire-side name a schema-side column may carry instead: `root` is
/// published as `symbol`, `ms_of_day` as `timestamp`.
pub open spec fn header_alias(name: Seq<char>) -> Option<Seq<char>> {
    if name == "root"@ {
        Some("symbol"@)
    } else if name == "ms_of_day"@ {
        Some("timestamp"@)
    } else {
        None
    }
}

/// Whether `i` is the first index of `name` in `h`.
pub open spec fn is_first_index(h: Seq<Seq<char>>, name: Seq<char>, i: int) -> bool {
    &&& 0 <= i < h.len()
    &&& h[i] == name
    &&& forall|j: int| 0 <= j < i ==> h[j] != name
}

/// The first index of `name` in `h`, if any.
pub open spec fn first_index(h: Seq<Seq<char>>, name: Seq<char>) -> Option<int> {
    if h.contains(name) {
        Some(choose|i: int| is_first_index(h, name, i))
    } else {
        None
    }
}

/// The column a requested header resolves to: its first exact match, or
/// else the first match of its wire-side alias.
pub open spec fn spec_find_header(h: Seq<Seq<char>>, name: Seq<char>) -> Option<int> {
    match first_index(h, name) {
        Some(i) => Some(i),
        None => match header_alias(name) {
            Some(a) => first_index(h, a),
            None => None,
        },
    }
}

fn index_of(headers: &Vec<String>, name: &str) -> (r: Option<usize>)
    ensures
        match r {
            Some(i) => first_index(headers_view(headers@), name@) == Some(i as int),
            None => first_index(headers_view(headers@), name@) is None,
        },
{
    let ghost h = headers_view(headers@);
    let mut i: usize = 0;
    while i < headers.len()
        invariant
            i <= headers@.len(),
            h == headers_view(headers@),
            forall|j: int| 0 <= j < i ==> h[j] != name@,
        decreases headers@.len() - i,
    {
        if str_eq(headers[i].as_str(), name) {
            proof {
                assert(is_first_index(h, name@, i as int));
                assert(h.contains(name@));
                let k = choose|k: int| is_first_index(h, name@, k);
                if k < i {
                    assert(h[k] != name@);
                } else if k > i {
                    assert(h[i as int] != name@);
                }
            }
            return Some(i);
        }
        i = i + 1;
    }
    assert(!h.contains(name@)) by {
        if h.contains(name@) {
            let j = choose|j: int| 0 <= j < h.len() && h[j] == name@;
            assert(h[j] != name@);
        }
    }
    None
}

fn alias_of(name: &str) -> (r: Option<&'static str>)
    ensures
        match r {
            Some(a) => header_alias(name@) == Some(a@),
            None => header_alias(name@) is None,
        },
{
    if str_eq(name, "root") {
        Some("symbol")
    } else if str_eq(name, "ms_of_day") {
        Some("timestamp")
    } else {
        None
    }
}

/// Resolve a requested column through the alias table.
pub fn find_header(headers: &Vec<String>, name: &str) -> (r: Option<usize>)
    ensures
        match r {
            Some(i) => spec_find_header(headers_view(headers@), name@) == Some(i as int),
            None => spec_find_header(headers_view(headers@), name@) is None,
        },
{
    match index_of(headers, name) {
        Some(i) => Some(i),
        None => match alias_of(name) {
            Some(a) => index_of(headers, a),
            None => None,
        },
    }
}

/// The number a cell contributes to a number column.
pub open spec fn number_cell(c: Option<Option<DataType>>) -> Option<i64> {
    match c {
        Some(Some(DataType::Number(n))) => Some(n),
        _ => None,
    }
}

/// Extract a column of numbers by header (alias-aware): one entry per row,
/// `None` for a row whose cell is missing or not a number; empty when no
/// column matches.
pub fn extract_number_column(table: &DataTable, header: &str) -> (r: Vec<Option<i64>>)
    ensures
        match spec_find_header(headers_view(table.headers@), header@) {
            None => r@.len() == 0,
            Some(c) => r@.len() == table.data_table@.len() && forall|i: int|
                0 <= i < r@.len() ==> #[trigger] r@[i] == number_cell(cell_at(table.data_table@[i], c)),
        },
{
    let col = match find_header(&table.headers, header) {
        Some(c) => c,
        None => return Vec::new(),
    };
    let mut out: Vec<Option<i64>> = Vec::new();
    let mut i: usize = 0;
    while i < table.data_table.len()
        invariant
            i <= table.data_table@.len(),
            out@.len() == i,
            forall|j: int| 0 <= j < i ==> #[trigger] out@[j] == number_cell(cell_at(table.data_table@[j], col as int)),
        decreases table.data_table@.len() - i,
    {
        let row = &table.data_table[i];
        let v = if col < row.values.len() {
            match &row.values[col].data_type {
                Some(DataType::Number(n)) => Some(*n),
                _ => None,
            }
        } else {
            None
        };
        out.push(v);
        i = i + 1;
    }
    out
}

/// The price a cell contributes to a price column: a price cell with a
/// valid price type.
pub open spec fn price_cell(c: Option<Option<DataType>>) -> Option<Price> {
    match c {
        Some(Some(DataType::Price(p))) => if valid_price_type(p.price_type as int) {
            Some(Price::spec_make(p.value, p.price_type))
        } else {
            None
        },
        _ => None,
    }
}

/// Extract a column of prices by header (alias-aware): one entry per row,
/// `None` for a missing or non-price cell and for a price type outside
/// `0..=MAX_PRICE_TYPE`; empty when no column matches.
pub fn extract_price_column(table: &DataTable, header: &str) -> (r: Vec<Option<Price>>)
    ensures
        match spec_find_header(headers_view(table.headers@), header@) {
            None => r@.len() == 0,
            Some(c) => r@.len() == table.data_table@.len() && forall|i: int|
                0 <= i < r@.len() ==> #[trigger] r@[i] == price_cell(cell_at(table.data_table@[i], c)),
        },
{
    let col = match find_header(&table.headers, header) {
        Some(c) => c,
        None => return Vec::new(),
    };
    let mut out: Vec<Option<Price>> = Vec::new();
    let mut i: usize = 0;
    while i < table.data_table.len()
        invariant
            i <= table.data_table@.len(),
            out@.len() == i,
            forall|j: int| 0 <= j < i ==> #[trigger] out@[j] == price_cell(cell_at(table.data_table@[j], col as int)),
        decreases table.data_table@.len() - i,
    {
        let row = &table.data_table[i];
        let v = if col < row.values.len() {
            match &row.values[col].data_type {
                Some(DataType::Price(p)) => match Price::with_value_and_type(p.value, p.price_type) {
                    Ok(price) => Some(price),
                    Err(_) => None,
                },
                _ => None,
            }
        } else {
            None
        };
        out.push(v);
        i = i + 1;
    }
    out
}

/// The `d`-digit, zero-padded decimal digits of `f` (its last `d` digits).
pub open spec fn padded_digits(f: nat, d: nat) -> Seq<char>
    decreases d,
{
    if d == 0 {
        Seq::empty()
    } else {
        padded_digits(f / 10, (d - 1) as nat).push(digit_char((f % 10) as int))
    }
}

/// `s` without its trailing `'0'` characters.
pub open spec fn strip_trailing_zeros(s: Seq<char>) -> Seq<char>
    decreases s.len(),
{
    if s.len() > 0 && s.last() == '0' {
        strip_trailing_zeros(s.drop_last())
    } else {
        s
    }
}

/// The decimal text of a price cell's real value `value * 10^(price_type
/// - 10)`: shortest form, with a fractional part only when it is non-zero
/// and without trailing zeros (`15025` at type 8 is `"150.25"`, `100` at
/// type 10 is `"100"`). The text is the exact decimal value, computed on
/// integers; no floating-point rounding enters it.
pub open spec fn price_text(value: i32, price_type: i32) -> Seq<char> {
    if price_type >= 10 {
        decimal_text(value * pow10((price_type - 10) as nat))
    } else {
        let d = (10 - price_type) as nat;
        let a = if value < 0 { -(value as int) } else { value as int };
        let frac = strip_trailing_zeros(padded_digits((a % pow10(d)) as nat, d));
        (if value < 0 { seq!['-'] } else { Seq::empty() }) + nat_digits((a / pow10(d)) as nat) + (if frac.len()
            == 0 {
            Seq::empty()
        } else {
            seq!['.'] + frac
        })
    }
}

fn padded_digit_bytes(f: u64, d: u32) -> (r: Vec<u8>)
    ensures
        ascii_chars(r@) == padded_digits(f as nat, d as nat),
        forall|i: int| 0 <= i < r@.len() ==> 48 <= #[trigger] r@[i] < 58,
    decreases d,
{
    if d == 0 {
        let r: Vec<u8> = Vec::new();
        assert(ascii_chars(r@) =~= Seq::<char>::empty());
        r
    } else {
        let mut r = padded_digit_bytes(f / 10, d - 1);
        let ghost before = r@;
        r.push((f % 10) as u8 + 48);
        assert(ascii_chars(r@) =~= ascii_chars(before).push(digit_char((f % 10) as int)));
        r
    }
}

fn strip_zero_bytes(v: &mut Vec<u8>)
    ensures
        ascii_chars(final(v)@) == strip_trailing_zeros(ascii_chars(old(v)@)),
        final(v)@.len() <= old(v)@.len(),
        final(v)@ == old(v)@.subrange(0, final(v)@.len() as int),
{
    let ghost orig = v@;
    while v.len() > 0 && v[v.len() - 1] == 48
        invariant
            strip_trailing_zeros(ascii_chars(v@)) == strip_trailing_zeros(ascii_chars(orig)),
            v@.len() <= orig.len(),
            v@ == orig.subrange(0, v@.len() as int),
        decreases v@.len(),
    {
        let ghost before = v@;
        v.pop();
        assert(ascii_chars(v@) =~= ascii_chars(before).drop_last());
        assert(v@ =~= orig.subrange(0, v@.len() as int));
    }
}

/// Append the decimal text of a valid price cell to `out`.
fn push_price_text(out: &mut Vec<u8>, value: i32, price_type: i32)
    requires
        0 <= price_type <= MAX_PRICE_TYPE,
        forall|i: int| 0 <= i < old(out)@.len() ==> #[trigger] old(out)@[i] < 128,
    ensures
        ascii_chars(final(out)@) == ascii_chars(old(out)@) + price_text(value, price_type),
        forall|i: int| 0 <= i < final(out)@.len() ==> #[trigger] final(out)@[i] < 128,
{
    let ghost start = out@;
    if price_type >= 10 {
        let m = pow10_i64((price_type - 10) as u32);
        let v: i64 = value as i64;
        proof {
            lemma_pow10_mono((price_type - 10) as nat, 9);
            reveal_with_fuel(pow10, 10);
            assert(-2_147_483_648 * 1_000_000_000 <= v * m <= 2_147_483_647 * 1_000_000_000) by (nonlinear_arith)
                requires
                    -2_147_483_648 <= v <= 2_147_483_647,
                    1 <= m <= 1_000_000_000,
            ;
        }
        push_decimal(out, v * m);
    } else {
        let d: u32 = (10 - price_type) as u32;
        let m = pow10_i64(d);
        proof {
            lemma_pow10_mono(1, d as nat);
        }
        let a: u64 = if value < 0 { (-(value as i64)) as u64 } else { value as u64 };
        let ip = a / (m as u64);
        let fp = a % (m as u64);
        if value < 0 {
            out.push(45u8);
        }
        let ghost signed = out@;
        let digits = nat_digit_bytes(ip);
        let ghost dg = digits@;
        let mut k: usize = 0;
        while k < digits.len()
            invariant
                k <= dg.len(),
                digits@ == dg,
                forall|j: int| 0 <= j < dg.len() ==> 48 <= #[trigger] dg[j] < 58,
                forall|j: int| 0 <= j < signed.len() ==> #[trigger] signed[j] < 128,
                out@ == signed + dg.subrange(0, k as int),
            decreases dg.len() - k,
        {
            out.push(digits[k]);
            k = k + 1;
            assert(dg.subrange(0, k as int) == dg.subrange(0, k - 1).push(dg[k - 1]));
        }
        assert(dg.subrange(0, dg.len() as int) == dg);
        let ghost whole = out@;
        assert(ascii_chars(whole) =~= ascii_chars(signed) + ascii_chars(dg));
        let mut frac = padded_digit_bytes(fp, d);
        let ghost full_frac = frac@;
        strip_zero_bytes(&mut frac);
        let ghost fr = frac@;
        assert forall|j: int| 0 <= j < fr.len() implies 48 <= #[trigger] fr[j] < 58 by {
            assert(fr[j] == full_frac[j]);
        }
        if frac.len() > 0 {
            out.push(46u8);
            let ghost dotted = out@;
            let mut k: usize = 0;
            while k < frac.len()
                invariant
                    k <= fr.len(),
                    frac@ == fr,
                    forall|j: int| 0 <= j < fr.len() ==> 48 <= #[trigger] fr[j] < 58,
                    forall|j: int| 0 <= j < dotted.len() ==> #[trigger] dotted[j] < 128,
                    out@ == dotted + fr.subrange(0, k as int),
                decreases fr.len() - k,
            {
                out.push(frac[k]);
                k = k + 1;
                assert(fr.subrange(0, k as int) == fr.subrange(0, k - 1).push(fr[k - 1]));
            }
            assert(fr.subrange(0, fr.len() as int) == fr);
            assert(ascii_chars(out@) =~= ascii_chars(whole) + seq!['.'] + ascii_chars(fr));
        }
        proof {
            let a_int: int = if value < 0 { -(value as int) } else { value as int };
            assert(a as int == a_int);
            assert(ip as int == a_int / pow10(d as nat));
            assert(fp as int == a_int % pow10(d as nat));
            if value < 0 {
                assert(ascii_chars(signed) =~= ascii_chars(start) + seq!['-']);
            } else {
                assert(signed == start);
            }
            assert(ascii_chars(out@) =~= ascii_chars(start) + price_text(value, price_type));
        }
    }
}

/// The text a cell contributes to a text column: text as is, a number as
/// its decimal text, a valid price cell as its decimal value.
pub open spec fn text_cell_view(c: Option<Option<DataType>>) -> Option<Seq<char>> {
    match c {
        Some(Some(DataType::Text(s))) => Some(s@),
        Some(Some(DataType::Number(n))) => Some(decimal_text(n as int)),
        Some(Some(DataType::Price(p))) => if valid_price_type(p.price_type as int) {
            Some(price_text(p.value, p.price_type))
        } else {
            None
        },
        _ => None,
    }
}

/// The text view of an optional string.
pub open spec fn opt_text(o: Option<String>) -> Option<Seq<char>> {
    match o {
        Some(s) => Some(s@),
        None => None,
    }
}

/// Extract a column of text by header (alias-aware): one entry per row.
/// Text cells pass through; number cells become their decimal text and
/// valid price cells their decimal value (the numeric list endpoints carry
/// dates and strikes that way); anything else, and a price type outside
/// `0..=MAX_PRICE_TYPE`, is `None`. Empty when no column matches.
pub fn extract_text_column(table: &DataTable, header: &str) -> (r: Vec<Option<String>>)
    ensures
        match spec_find_header(headers_view(table.headers@), header@) {
            None => r@.len() == 0,
            Some(c) => r@.len() == table.data_table@.len() && forall|i: int|
                0 <= i < r@.len() ==> #[trigger] opt_text(r@[i]) == text_cell_view(cell_at(table.data_table@[i], c)),
        },
{
    let col = match find_header(&table.headers, header) {
        Some(c) => c,
        None => return Vec::new(),
    };
    let mut out: Vec<Option<String>> = Vec::new();
    let mut i: usize = 0;
    while i < table.data_table.len()
        invariant
            i <= table.data_table@.len(),
            out@.len() == i,
            forall|j: int|
                0 <= j < i ==> #[trigger] opt_text(out@[j]) == text_cell_view(cell_at(table.data_table@[j], col as int)),
        decreases table.data_table@.len() - i,
    {
        let row = &table.data_table[i];
        let v: Option<String> = if col < row.values.len() {
            match &row.values[col].data_type {
                Some(DataType::Text(s)) => Some(s.clone()),
                Some(DataType::Number(n)) => Some(decimal_string(*n)),
                Some(DataType::Price(p)) => {
                    if 0 <= p.price_type && p.price_type <= MAX_PRICE_TYPE {
                        let mut bytes: Vec<u8> = Vec::new();
                        push_price_text(&mut bytes, p.value, p.price_type);
                        assert(ascii_chars(bytes@) =~= price_text(p.value, p.price_type));
                        Some(ascii_string(bytes))
                    } else {
                        None
                    }
                },
                _ => None,
            }
        } else {
            None
        };
        out.push(v);
        i = i + 1;
    }
    out
}

/// The response's symbol (root) column: absent, one value for every row,
/// or one value per row.
#[derive(Debug, PartialEq, Eq)]
pub enum ResponseSymbol {
    /// No `symbol`/`root` header, or a constant column with no readable
    /// text.
    Absent,
    /// The same symbol on every row (empty text when there are no rows).
    Constant(String),
    /// A varying symbol, one per row; a non-text cell reads as empty text.
    PerRow(Vec<String>),
}

/// The text of a row's symbol cell, if it is a text cell.
pub open spec fn symbol_cell(row: DataValueList, col: int) -> Option<Seq<char>> {
    match cell_at(row, col) {
        Some(Some(DataType::Text(s))) => Some(s@),
        _ => None,
    }
}

/// Whether `r` classifies the symbol column of `t` correctly.
pub open spec fn response_symbol_of(t: DataTable, r: ResponseSymbol) -> bool {
    let rows = t.data_table@;
    match spec_find_header(headers_view(t.headers@), "root"@) {
        None => r is Absent,
        Some(c) => if rows.len() == 0 {
            r matches ResponseSymbol::Constant(s) && s@ == ""@
        } else if forall|i: int| 0 <= i < rows.len() ==> symbol_cell(#[trigger] rows[i], c) == symbol_cell(rows[0], c) {
            match symbol_cell(rows[0], c) {
                Some(s0) => r matches ResponseSymbol::Constant(s) && s@ == s0,
                None => r is Absent,
            }
        } else {
            r matches ResponseSymbol::PerRow(v) && v@.len() == rows.len() && forall|i: int|
                0 <= i < rows.len() ==> #[trigger] v@[i]@ == match symbol_cell(rows[i], c) {
                    Some(s) => s,
                    None => ""@,
                }
        },
    }
}

fn symbol_text(row: &DataValueList, col: usize) -> (r: Option<&String>)
    ensures
        match r {
            Some(s) => symbol_cell(*row, col as int) == Some(s@),
            None => symbol_cell(*row, col as int) is None,
        },
{
    if col < row.values.len() {
        match &row.values[col].data_type {
            Some(DataType::Text(s)) => Some(s),
            _ => None,
        }
    } else {
        None
    }
}

fn same_symbol(a: Option<&String>, b: Option<&String>) -> (r: bool)
    ensures
        r == (match a {
            Some(x) => Some(x@),
            None => None::<Seq<char>>,
        } == match b {
            Some(x) => Some(x@),
            None => None::<Seq<char>>,
        }),
{
    match (a, b) {
        (Some(x), Some(y)) => str_eq(x.as_str(), y.as_str()),
        (None, None) => true,
        _ => false,
    }
}

/// Classify the response's symbol (root) column, resolved through the
/// alias table: absent, constant across all rows, or varying per row.
pub fn response_symbol(table: &DataTable) -> (r: ResponseSymbol)
    ensures
        response_symbol_of(*table, r),
{
    let col = match find_header(&table.headers, "root") {
        Some(c) => c,
        None => return ResponseSymbol::Absent,
    };
    let rows = &table.data_table;
    if rows.len() == 0 {
        let empty = String::new();
        proof {
            reveal_strlit("");
        }
        assert(empty@ =~= ""@);
        return ResponseSymbol::Constant(empty);
    }
    let first = symbol_text(&rows[0], col);
    let mut constant = true;
    let mut i: usize = 0;
    while i < rows.len()
        invariant
            i <= rows@.len(),
            rows@.len() > 0,
            match first {
                Some(s) => symbol_cell(rows@[0], col as int) == Some(s@),
                None => symbol_cell(rows@[0], col as int) is None,
            },
            constant <==> forall|j: int| 0 <= j < i ==> symbol_cell(#[trigger] rows@[j], col as int) == symbol_cell(
                rows@[0],
                col as int,
            ),
        decreases rows@.len() - i,
    {
        let here = symbol_text(&rows[i], col);
        if !same_symbol(here, first) {
            constant = false;
        }
        i = i + 1;
    }
    if constant {
        return match first {
            Some(s) => ResponseSymbol::Constant(s.clone()),
            None => ResponseSymbol::Absent,
        };
    }
    let mut out: Vec<String> = Vec::new();
    let mut i: usize = 0;
    while i < rows.len()
        invariant
            i <= rows@.len(),
            out@.len() == i,
            forall|j: int| 0 <= j < i ==> #[trigger] out@[j]@ == match symbol_cell(rows@[j], col as int) {
                Some(s) => s,
                None => ""@,
            },
        decreases rows@.len() - i,
    {
        let v = match symbol_text(&rows[i], col) {
            Some(s) => s.clone(),
            None => String::new(),
        };
        proof {
            reveal_strlit("");
        }
        out.push(v);
        i = i + 1;
    }
    ResponseSymbol::PerRow(out)
}

/// Header names joined with commas.
pub open spec fn joined(parts: Seq<Seq<char>>) -> Seq<char>
    decreases parts.len(),
{
    if parts.len() == 0 {
        Seq::empty()
    } else if parts.len() == 1 {
        parts[0]
    } else {
        joined(parts.drop_last()) + seq![','] + parts.last()
    }
}

fn join_commas(parts: &Vec<String>) -> (r: String)
    ensures
        r@ == joined(headers_view(parts@)),
{
    let mut out = String::new();
    let ghost v = headers_view(parts@);
    let mut i: usize = 0;
    while i < parts.len()
        invariant
            i <= parts@.len(),
            v == headers_view(parts@),
            out@ == joined(v.take(i as int)),
        decreases parts@.len() - i,
    {
        if i > 0 {
            out.append(",");
        }
        out.append(parts[i].as_str());
        proof {
            reveal_strlit(",");
            let t = v.take(i + 1);
            assert(t.drop_last() =~= v.take(i as int));
            if i == 0 {
                assert(out@ =~= t[0]);
            } else {
                assert(out@ =~= joined(t.drop_last()) + seq![','] + t.last());
            }
        }
        i = i + 1;
    }
    assert(v.take(i as int) =~= v);
    out
}

fn copy_headers(parts: &Vec<String>) -> (r: Vec<String>)
    ensures
        headers_view(r@) == headers_view(parts@),
{
    let mut out: Vec<String> = Vec::new();
    let mut i: usize = 0;
    while i < parts.len()
        invariant
            i <= parts@.len(),
            headers_view(out@) == headers_view(parts@).take(i as int),
        decreases parts@.len() - i,
    {
        let ghost before = out@;
        out.push(parts[i].clone());
        assert(headers_view(out@) =~= headers_view(before).push(parts@[i as int]@));
        assert(headers_view(parts@).take(i + 1) =~= headers_view(parts@).take(i as int).push(parts@[i as int]@));
        i = i + 1;
    }
    assert(headers_view(parts@).take(i as int) =~= headers_view(parts@));
    out
}

fn same_headers(a: &Vec<String>, b: &Vec<String>) -> (r: bool)
    ensures
        r == (headers_view(a@) == headers_view(b@)),
{
    if a.len() != b.len() {
        assert(headers_view(a@).len() != headers_view(b@).len());
        return false;
    }
    let mut i: usize = 0;
    while i < a.len()
        invariant
            i <= a@.len(),
            a@.len() == b@.len(),
            forall|j: int| 0 <= j < i ==> #[trigger] headers_view(a@)[j] == headers_view(b@)[j],
        decreases a@.len() - i,
    {
        if !str_eq(a[i].as_str(), b[i].as_str()) {
            assert(headers_view(a@)[i as int] != headers_view(b@)[i as int]);
            return false;
        }
        i = i + 1;
    }
    assert(headers_view(a@) =~= headers_view(b@));
    true
}

/// The header contract of a chunked response: the first chunk that carries
/// headers fixes the schema (saved in `saved_headers`); a later chunk with
/// headers must repeat it exactly, or it is refused as header drift; a chunk
/// without headers belongs to the saved schema.
pub fn check_chunk_headers(
    table: DataTable,
    saved_headers: &mut Option<Vec<String>>,
    chunk_index: usize,
) -> (r: Result<DataTable, DecodeError>)
    ensures
        *old(saved_headers) is None && table.headers@.len() > 0 ==> r == Ok::<DataTable, DecodeError>(table),
        *old(saved_headers) is None && table.headers@.len() > 0 ==> (*final(saved_headers) matches Some(saved)
            && headers_view(saved@) == headers_view(table.headers@)),
        *old(saved_headers) is None && table.headers@.len() == 0 ==> r == Ok::<DataTable, DecodeError>(table)
            && *final(saved_headers) is None,
        *old(saved_headers) matches Some(first) ==> {
            &&& *final(saved_headers) == *old(saved_headers)
            &&& if table.headers@.len() > 0 && headers_view(table.headers@) != headers_view(first@) {
                r matches Err(DecodeError::ChunkHeaderDrift { chunk_index: ci, first: f, chunk: c }) && ci
                    == chunk_index && f@ == joined(headers_view(first@)) && c@ == joined(
                    headers_view(table.headers@),
                )
            } else {
                r == Ok::<DataTable, DecodeError>(table)
            }
        },
{
    match saved_headers {
        None => {
            if table.headers.len() > 0 {
                *saved_headers = Some(copy_headers(&table.headers));
            }
            Ok(table)
        },
        Some(first) => {
            if table.headers.len() > 0 && !same_headers(&table.headers, first) {
                let f = join_commas(first);
                let c = join_commas(&table.headers);
                Err(DecodeError::ChunkHeaderDrift { chunk_index, first: f, chunk: c })
            } else {
                Ok(table)
            }
        },
    }
}

} // verus!
