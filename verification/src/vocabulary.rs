//! The vendor's own names for the columns this library spells differently,
//! and membership in the vendor's column vocabulary.

use vstd::prelude::*;

use crate::text::str_eq;

verus! {

/// The vendor column a renamed column of this library carries.
pub open spec fn vendor_name_of(sdk_column: Seq<char>) -> Option<Seq<char>> {
    if sdk_column == "implied_volatility"@ {
        Some("IMPLIED_VOL"@)
    } else if sdk_column == "ask_implied_volatility"@ {
        Some("ASK_IMPLIED_VOL"@)
    } else if sdk_column == "bid_implied_volatility"@ {
        Some("BID_IMPLIED_VOL"@)
    } else if sdk_column == "underlying_ms_of_day"@ || sdk_column == "quote_ms_of_day"@ {
        Some("MS_OF_DAY2"@)
    } else {
        None
    }
}

/// The vendor's name for a column this library spells differently, and
/// `None` for every column carried under the vendor's own name (and for a
/// name that is no column at all). The underlying's and the quote's
/// millisecond-of-day are one vendor column under two names.
pub fn vendor_column_name(sdk_column: &str) -> (r: Option<&'static str>)
    ensures
        match r {
            Some(v) => vendor_name_of(sdk_column@) == Some(v@),
            None => vendor_name_of(sdk_column@) is None,
        },
{
    if str_eq(sdk_column, "implied_volatility") {
        Some("IMPLIED_VOL")
    } else if str_eq(sdk_column, "ask_implied_volatility") {
        Some("ASK_IMPLIED_VOL")
    } else if str_eq(sdk_column, "bid_implied_volatility") {
        Some("BID_IMPLIED_VOL")
    } else if str_eq(sdk_column, "underlying_ms_of_day") || str_eq(sdk_column, "quote_ms_of_day") {
        Some("MS_OF_DAY2")
    } else {
        None
    }
}

/// Whether `name` is in the vendor's column vocabulary `columns`.
pub fn is_vendor_column(columns: &[&'static str], name: &str) -> (r: bool)
    ensures
        r == exists|i: int| 0 <= i < columns@.len() && #[trigger] columns@[i]@ == name@,
{
    let mut i: usize = 0;
    while i < columns.len()
        invariant
            i <= columns@.len(),
            forall|j: int| 0 <= j < i ==> #[trigger] columns@[j]@ != name@,
        decreases columns@.len() - i,
    {
        if str_eq(columns[i], name) {
            return true;
        }
        i = i + 1;
    }
    false
}

} // verus!
