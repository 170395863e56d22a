//! Discriminator tags written into a batch row's `event_type` column, one
//! per market-data variant.

use vstd::prelude::*;

verus! {

/// Tag of a quote row.
pub const QUOTE: &'static str = "quote";

/// Tag of a trade row.
pub const TRADE: &'static str = "trade";

/// Tag of an open-interest row.
pub const OPEN_INTEREST: &'static str = "open_interest";

/// Tag of an OHLCVC row.
pub const OHLCVC: &'static str = "ohlcvc";

/// Tag of a market-value row.
pub const MARKET_VALUE: &'static str = "market_value";

} // verus!
