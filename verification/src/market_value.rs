//! Calculated market value of a quote, in raw wire-integer price units.
//!
//! The market ask is derived first from the raw ask and the book sizes; the
//! market bid is then derived from the raw bid, comparing against the raw ask
//! only for the locked-book test and against the already-derived market ask
//! everywhere else. Every one-unit nudge saturates at the `i32` bounds so a
//! degenerate wire price can never overflow.

use vstd::prelude::*;

verus! {

/// `x + 1`, clamped at `i32::MAX`.
pub open spec fn sat_inc(x: i32) -> i32 {
    if x == i32::MAX { x } else { (x + 1) as i32 }
}

/// `x - 1`, clamped at `i32::MIN`.
pub open spec fn sat_dec(x: i32) -> i32 {
    if x == i32::MIN { x } else { (x - 1) as i32 }
}

/// Market ask of a quote.
pub open spec fn spec_market_ask(ask: i32, bid_size: i32, ask_size: i32) -> i32 {
    if ask_size > bid_size {
        sat_inc(ask)
    } else if ask <= 2 {
        ask
    } else {
        sat_dec(ask)
    }
}

/// Market bid of a quote, given the raw bid and ask.
pub open spec fn spec_market_bid(bid: i32, ask: i32, bid_size: i32, ask_size: i32) -> i32 {
    let market_ask = spec_market_ask(ask, bid_size, ask_size);
    if bid == ask {
        market_ask
    } else if ask_size > bid_size {
        if bid <= 1 { bid } else { sat_dec(bid) }
    } else if bid == 0 {
        0
    } else if bid < market_ask {
        let lowered = if sat_dec(market_ask) > 0 { sat_dec(market_ask) } else { 0 };
        if lowered < sat_inc(bid) { lowered } else { sat_inc(bid) }
    } else {
        sat_inc(bid)
    }
}

/// Rust's `/` on integers: the quotient truncated toward zero.
pub open spec fn trunc_div(x: int, d: int) -> int {
    if x >= 0 { x / d } else { -((-x) / d) }
}

/// Rust's `%` on integers: the remainder carrying the sign of `x`.
pub open spec fn trunc_rem(x: int, d: int) -> int {
    x - d * trunc_div(x, d)
}

/// Overflow-safe integer midpoint `bid/2 + ask/2 + (bid%2 + ask%2)/2`.
pub open spec fn spec_midpoint(bid: int, ask: int) -> int {
    trunc_div(bid, 2) + trunc_div(ask, 2) + trunc_div(trunc_rem(bid, 2) + trunc_rem(ask, 2), 2)
}

fn saturating_inc(x: i32) -> (r: i32)
    ensures
        r == sat_inc(x),
{
    if x == i32::MAX { x } else { x + 1 }
}

fn saturating_dec(x: i32) -> (r: i32)
    ensures
        r == sat_dec(x),
{
    if x == i32::MIN { x } else { x - 1 }
}

/// Market `(bid, ask)` of a quote with raw `bid` / `ask` prices and
/// `bid_size` / `ask_size` sizes.
pub fn calculate_market_value(bid: i32, ask: i32, bid_size: i32, ask_size: i32) -> (r: (i32, i32))
    ensures
        r.1 == spec_market_ask(ask, bid_size, ask_size),
        r.0 == spec_market_bid(bid, ask, bid_size, ask_size),
{
    let market_ask = if ask_size > bid_size {
        saturating_inc(ask)
    } else if ask <= 2 {
        ask
    } else {
        saturating_dec(ask)
    };
    let market_bid = if bid == ask {
        market_ask
    } else if ask_size > bid_size {
        if bid <= 1 { bid } else { saturating_dec(bid) }
    } else if bid == 0 {
        0
    } else if bid < market_ask {
        let lowered = saturating_dec(market_ask);
        let lowered = if lowered > 0 { lowered } else { 0 };
        let raised = saturating_inc(bid);
        if lowered < raised { lowered } else { raised }
    } else {
        saturating_inc(bid)
    };
    (market_bid, market_ask)
}

/// Integer midpoint of a market bid/ask pair, computed without overflow as
/// `bid/2 + ask/2 + (bid%2 + ask%2)/2` with Rust's truncating division.
pub fn market_value_midpoint(market_bid: i32, market_ask: i32) -> (r: i32)
    ensures
        r as int == spec_midpoint(market_bid as int, market_ask as int),
{
    let hb = market_bid / 2;
    let ha = market_ask / 2;
    let rb = market_bid % 2;
    let ra = market_ask % 2;
    hb + ha + (rb + ra) / 2
}

/// The midpoint of any two prices lies between them.
pub proof fn midpoint_is_between(bid: i32, ask: i32)
    ensures
        bid <= ask ==> bid <= spec_midpoint(bid as int, ask as int) <= ask,
        ask <= bid ==> ask <= spec_midpoint(bid as int, ask as int) <= bid,
        spec_midpoint(bid as int, ask as int) == spec_midpoint(ask as int, bid as int),
{
}

/// A locked book (raw bid equal to raw ask) stays locked: the market bid is
/// the market ask, and so is their midpoint.
pub proof fn locked_book_stays_locked(price: i32, bid_size: i32, ask_size: i32)
    ensures
        spec_market_bid(price, price, bid_size, ask_size) == spec_market_ask(
            price,
            bid_size,
            ask_size,
        ),
        spec_midpoint(
            spec_market_ask(price, bid_size, ask_size) as int,
            spec_market_ask(price, bid_size, ask_size) as int,
        ) == spec_market_ask(price, bid_size, ask_size),
{
}

} // verus!
