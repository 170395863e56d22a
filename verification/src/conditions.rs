//! Trade and quote condition lookups.
//!
//! A condition table lists one entry per wire code, the entry for code `i`
//! at index `i`. A lookup indexes the table by the code; a code outside the
//! table answers the documented fallback (`"UNKNOWN"` for a name, `""` for a
//! description, `false` for a flag). The tables themselves are reference
//! data handed in by the caller.

use vstd::prelude::*;

verus! {

/// A trade condition code with its properties.
#[derive(Debug, Clone, Copy, PartialEq, Eq)]
pub struct TradeCondition {
    pub code: i32,
    pub name: &'static str,
    pub description: &'static str,
    pub cancel: bool,
    pub late_report: bool,
    pub auto_executed: bool,
    pub open_report: bool,
    pub volume: bool,
    pub high: bool,
    pub low: bool,
    pub last: bool,
}

/// A quote condition code with its properties.
#[derive(Debug, Clone, Copy, PartialEq, Eq)]
pub struct QuoteCondition {
    pub code: i32,
    pub name: &'static str,
    pub description: &'static str,
    pub firm: bool,
    pub halted: bool,
}

/// The table entry at index `code`, if the code is inside the table.
pub open spec fn entry_at<T>(table: Seq<T>, code: i32) -> Option<T> {
    if 0 <= code < table.len() {
        Some(table[code as int])
    } else {
        None
    }
}

/// The index of `code` in a table of `len` entries, if it has one.
fn index_of_code(len: usize, code: i32) -> (r: Option<usize>)
    ensures
        match r {
            Some(i) => 0 <= code < len && i == code,
            None => !(0 <= code < len),
        },
{
    if code < 0 {
        return None;
    }
    let idx = code as u32 as usize;
    if idx < len {
        Some(idx)
    } else {
        None
    }
}

/// Name of a trade condition code; `"UNKNOWN"` outside the table.
pub fn condition_name(table: &[TradeCondition], code: i32) -> (r: &'static str)
    ensures
        match entry_at(table@, code) {
            Some(c) => r == c.name,
            None => r@ == "UNKNOWN"@,
        },
{
    match index_of_code(table.len(), code) {
        Some(i) => table[i].name,
        None => "UNKNOWN",
    }
}

/// Description of a trade condition code; `""` outside the table.
pub fn condition_description(table: &[TradeCondition], code: i32) -> (r: &'static str)
    ensures
        match entry_at(table@, code) {
            Some(c) => r == c.description,
            None => r@ == ""@,
        },
{
    match index_of_code(table.len(), code) {
        Some(i) => table[i].description,
        None => "",
    }
}

/// Whether a trade condition code marks a cancellation; `false` outside the table.
pub fn is_cancel(table: &[TradeCondition], code: i32) -> (r: bool)
    ensures
        r == (entry_at(table@, code) matches Some(c) && c.cancel),
{
    match index_of_code(table.len(), code) {
        Some(i) => table[i].cancel,
        None => false,
    }
}

/// Whether a trade condition code counts toward volume; `false` outside the table.
pub fn updates_volume(table: &[TradeCondition], code: i32) -> (r: bool)
    ensures
        r == (entry_at(table@, code) matches Some(c) && c.volume),
{
    match index_of_code(table.len(), code) {
        Some(i) => table[i].volume,
        None => false,
    }
}

/// Name of a quote condition code; `"UNKNOWN"` outside the table.
pub fn quote_condition_name(table: &[QuoteCondition], code: i32) -> (r: &'static str)
    ensures
        match entry_at(table@, code) {
            Some(c) => r == c.name,
            None => r@ == "UNKNOWN"@,
        },
{
    match index_of_code(table.len(), code) {
        Some(i) => table[i].name,
        None => "UNKNOWN",
    }
}

/// Description of a quote condition code; `""` outside the table.
pub fn quote_condition_description(table: &[QuoteCondition], code: i32) -> (r: &'static str)
    ensures
        match entry_at(table@, code) {
            Some(c) => r == c.description,
            None => r@ == ""@,
        },
{
    match index_of_code(table.len(), code) {
        Some(i) => table[i].description,
        None => "",
    }
}

/// Whether a quote condition code is firm; `false` outside the table.
pub fn is_firm(table: &[QuoteCondition], code: i32) -> (r: bool)
    ensures
        r == (entry_at(table@, code) matches Some(c) && c.firm),
{
    match index_of_code(table.len(), code) {
        Some(i) => table[i].firm,
        None => false,
    }
}

/// Whether a quote condition code marks a trading halt; `false` outside the table.
pub fn is_halted(table: &[QuoteCondition], code: i32) -> (r: bool)
    ensures
        r == (entry_at(table@, code) matches Some(c) && c.halted),
{
    match index_of_code(table.len(), code) {
        Some(i) => table[i].halted,
        None => false,
    }
}

} // verus!
