//! Subscription kinds and the fluent subscription values the streaming
//! surface accepts.
//!
//! Per-contract kinds subscribe with codes 21..=25 and unsubscribe with the
//! matching `Remove*` codes; only Trade and OpenInterest exist as full-stream
//! (security-type-wide) subscriptions.

use vstd::prelude::*;

use crate::contract::Contract;
use crate::enums::{SecType, StreamMsgType, msg_type_code};

verus! {

/// Wire-level subscription discriminator.
#[derive(Debug, Clone, Copy, PartialEq, Eq, Structural, Hash)]
pub enum SubscriptionKind {
    Quote,
    Trade,
    OpenInterest,
    MarketValue,
}

/// Message type that subscribes to a kind.
pub open spec fn spec_subscribe_code(k: SubscriptionKind) -> StreamMsgType {
    match k {
        SubscriptionKind::Quote => StreamMsgType::Quote,
        SubscriptionKind::Trade => StreamMsgType::Trade,
        SubscriptionKind::OpenInterest => StreamMsgType::OpenInterest,
        SubscriptionKind::MarketValue => StreamMsgType::MarketValue,
    }
}

/// Message type that unsubscribes from a kind.
pub open spec fn spec_unsubscribe_code(k: SubscriptionKind) -> StreamMsgType {
    match k {
        SubscriptionKind::Quote => StreamMsgType::RemoveQuote,
        SubscriptionKind::Trade => StreamMsgType::RemoveTrade,
        SubscriptionKind::OpenInterest => StreamMsgType::RemoveOpenInterest,
        SubscriptionKind::MarketValue => StreamMsgType::RemoveMarketValue,
    }
}

/// Snake-case label of a per-contract subscription kind.
pub open spec fn kind_label(k: SubscriptionKind) -> Seq<char> {
    match k {
        SubscriptionKind::Quote => "quote"@,
        SubscriptionKind::Trade => "trade"@,
        SubscriptionKind::OpenInterest => "open_interest"@,
        SubscriptionKind::MarketValue => "market_value"@,
    }
}

/// Label of a kind carried as a full-stream subscription, if it has one.
pub open spec fn full_kind_label(k: SubscriptionKind) -> Option<Seq<char>> {
    match k {
        SubscriptionKind::Trade => Some("full_trades"@),
        SubscriptionKind::OpenInterest => Some("full_open_interest"@),
        _ => None,
    }
}

impl SubscriptionKind {
    /// Message code for subscribing (client to server).
    pub fn subscribe_code(self) -> (r: StreamMsgType)
        ensures
            r == spec_subscribe_code(self),
    {
        match self {
            SubscriptionKind::Quote => StreamMsgType::Quote,
            SubscriptionKind::Trade => StreamMsgType::Trade,
            SubscriptionKind::OpenInterest => StreamMsgType::OpenInterest,
            SubscriptionKind::MarketValue => StreamMsgType::MarketValue,
        }
    }

    /// Message code for unsubscribing (client to server).
    pub fn unsubscribe_code(self) -> (r: StreamMsgType)
        ensures
            r == spec_unsubscribe_code(self),
    {
        match self {
            SubscriptionKind::Quote => StreamMsgType::RemoveQuote,
            SubscriptionKind::Trade => StreamMsgType::RemoveTrade,
            SubscriptionKind::OpenInterest => StreamMsgType::RemoveOpenInterest,
            SubscriptionKind::MarketValue => StreamMsgType::RemoveMarketValue,
        }
    }

    /// Stable snake_case label of a per-contract subscription.
    pub fn kind_str(self) -> (r: &'static str)
        ensures
            r@ == kind_label(self),
    {
        match self {
            SubscriptionKind::Quote => "quote",
            SubscriptionKind::Trade => "trade",
            SubscriptionKind::OpenInterest => "open_interest",
            SubscriptionKind::MarketValue => "market_value",
        }
    }

    /// Label of this kind as a full-stream subscription; `None` for the
    /// kinds that have no full-stream form (Quote, MarketValue).
    pub fn full_kind_str(self) -> (r: Option<&'static str>)
        ensures
            match r {
                Some(s) => full_kind_label(self) == Some(s@),
                None => full_kind_label(self) is None,
            },
    {
        match self {
            SubscriptionKind::Trade => Some("full_trades"),
            SubscriptionKind::OpenInterest => Some("full_open_interest"),
            _ => None,
        }
    }
}

/// Requestable full-stream tick kinds.
#[derive(Debug, Clone, Copy, PartialEq, Eq, Structural, Hash)]
pub enum FullSubscriptionKind {
    Trades,
    OpenInterest,
}

/// Label of a full-stream kind (always `full_`-prefixed).
pub open spec fn full_stream_label(k: FullSubscriptionKind) -> Seq<char> {
    match k {
        FullSubscriptionKind::Trades => "full_trades"@,
        FullSubscriptionKind::OpenInterest => "full_open_interest"@,
    }
}

/// The per-contract kind a full-stream kind tracks as.
pub open spec fn full_as_kind(k: FullSubscriptionKind) -> SubscriptionKind {
    match k {
        FullSubscriptionKind::Trades => SubscriptionKind::Trade,
        FullSubscriptionKind::OpenInterest => SubscriptionKind::OpenInterest,
    }
}

impl FullSubscriptionKind {
    /// Stable `full_`-prefixed label.
    pub fn kind_str(self) -> (r: &'static str)
        ensures
            r@ == full_stream_label(self),
    {
        match self {
            FullSubscriptionKind::Trades => "full_trades",
            FullSubscriptionKind::OpenInterest => "full_open_interest",
        }
    }
}

/// Typed market-data subscription: one tick kind on one contract, or a
/// full-stream kind on a whole security type.
#[allow(inconsistent_fields)]
#[derive(Debug, Clone, PartialEq, Eq)]
pub enum Subscription {
    Contract { contract: Contract, kind: SubscriptionKind },
    Full { sec_type: SecType, kind: FullSubscriptionKind },
}

impl Contract {
    /// Per-contract quote subscription.
    pub fn quote(&self) -> (r: Subscription)
        ensures
            r == (Subscription::Contract { contract: *self, kind: SubscriptionKind::Quote }),
    {
        Subscription::Contract { contract: self.copy(), kind: SubscriptionKind::Quote }
    }

    /// Per-contract trade subscription.
    pub fn trade(&self) -> (r: Subscription)
        ensures
            r == (Subscription::Contract { contract: *self, kind: SubscriptionKind::Trade }),
    {
        Subscription::Contract { contract: self.copy(), kind: SubscriptionKind::Trade }
    }

    /// Per-contract open-interest subscription.
    pub fn open_interest(&self) -> (r: Subscription)
        ensures
            r == (Subscription::Contract {
                contract: *self,
                kind: SubscriptionKind::OpenInterest,
            }),
    {
        Subscription::Contract { contract: self.copy(), kind: SubscriptionKind::OpenInterest }
    }

    /// Per-contract market-value subscription (there is no full-stream form).
    pub fn market_value(&self) -> (r: Subscription)
        ensures
            r == (Subscription::Contract {
                contract: *self,
                kind: SubscriptionKind::MarketValue,
            }),
    {
        Subscription::Contract { contract: self.copy(), kind: SubscriptionKind::MarketValue }
    }
}

/// Fluent full-stream constructors on a security type.
pub trait SecTypeExt: Copy + Sized {
    /// Full-stream trade subscription for this security type.
    fn full_trades(self) -> Subscription;

    /// Full-stream open-interest subscription for this security type.
    fn full_open_interest(self) -> Subscription;
}

impl SecTypeExt for SecType {
    fn full_trades(self) -> (r: Subscription)
        ensures
            r == (Subscription::Full { sec_type: self, kind: FullSubscriptionKind::Trades }),
    {
        Subscription::Full { sec_type: self, kind: FullSubscriptionKind::Trades }
    }

    fn full_open_interest(self) -> (r: Subscription)
        ensures
            r == (Subscription::Full {
                sec_type: self,
                kind: FullSubscriptionKind::OpenInterest,
            }),
    {
        Subscription::Full { sec_type: self, kind: FullSubscriptionKind::OpenInterest }
    }
}

/// Whether a security type has an upstream full-stream broadcast (only
/// stocks and options do).
pub fn full_stream_sec_type_supported(sec_type: SecType) -> (r: bool)
    ensures
        r == (sec_type == SecType::Stock || sec_type == SecType::Option),
{
    match sec_type {
        SecType::Stock | SecType::Option => true,
        _ => false,
    }
}

/// The two codes of a kind never coincide, and for every kind but the
/// market value the unsubscribe code sits exactly thirty above the
/// subscribe code (market value subscribes with 25 and unsubscribes with 54).
pub proof fn unsubscribe_code_mirrors_subscribe_code(k: SubscriptionKind)
    ensures
        k != SubscriptionKind::MarketValue ==> msg_type_code(spec_unsubscribe_code(k)) as int
            == msg_type_code(spec_subscribe_code(k)) as int + 30,
        spec_unsubscribe_code(k) != spec_subscribe_code(k),
{
    assert(msg_type_code(StreamMsgType::Quote) == 21);
    assert(msg_type_code(StreamMsgType::Trade) == 22);
    assert(msg_type_code(StreamMsgType::OpenInterest) == 23);
    assert(msg_type_code(StreamMsgType::MarketValue) == 25);
    assert(msg_type_code(StreamMsgType::RemoveQuote) == 51);
    assert(msg_type_code(StreamMsgType::RemoveTrade) == 52);
    assert(msg_type_code(StreamMsgType::RemoveOpenInterest) == 53);
    assert(msg_type_code(StreamMsgType::RemoveMarketValue) == 54);
}

/// Distinct kinds subscribe (and unsubscribe) with distinct codes.
pub proof fn subscribe_codes_are_distinct(a: SubscriptionKind, b: SubscriptionKind)
    ensures
        spec_subscribe_code(a) == spec_subscribe_code(b) ==> a == b,
        spec_unsubscribe_code(a) == spec_unsubscribe_code(b) ==> a == b,
{
}

/// A per-contract label never reads the same as a full-stream label, and a
/// kind's full-stream label is the label of the full-stream kind it tracks as.
pub proof fn full_labels_never_collide(k: SubscriptionKind, f: FullSubscriptionKind)
    ensures
        kind_label(k) != full_stream_label(f),
        full_kind_label(full_as_kind(f)) == Some(full_stream_label(f)),
{
    reveal_strlit("quote");
    reveal_strlit("trade");
    reveal_strlit("open_interest");
    reveal_strlit("market_value");
    reveal_strlit("full_trades");
    reveal_strlit("full_open_interest");
    assert("quote"@.len() == 5 && "trade"@.len() == 5);
    assert("open_interest"@.len() == 13 && "market_value"@.len() == 12);
    assert("full_trades"@.len() == 11 && "full_open_interest"@.len() == 18);
    assert("quote"@ != "full_trades"@ && "quote"@ != "full_open_interest"@);
    assert("trade"@ != "full_trades"@ && "trade"@ != "full_open_interest"@);
    assert("open_interest"@ != "full_trades"@ && "open_interest"@ != "full_open_interest"@);
    assert("market_value"@ != "full_trades"@ && "market_value"@ != "full_open_interest"@);
}

} // verus!
