//! Contract identity carried on every streaming event and subscription.

use vstd::prelude::*;

use crate::enums::SecType;
use crate::text::str_eq;

verus! {

/// A tradable instrument as the stream addresses it.
///
/// Stock, index and rate contracts carry only a symbol; option contracts add
/// the expiration (`YYYYMMDD`), the call/put flag and the strike in
/// thousandths of a dollar.
#[derive(Debug, Clone, PartialEq, Eq, Hash)]
pub struct Contract {
    pub symbol: String,
    pub sec_type: SecType,
    pub expiration: Option<i32>,
    pub is_call: Option<bool>,
    pub strike_thousandths: Option<i32>,
}

impl Contract {
    /// A stock contract for `symbol`.
    pub fn stock(symbol: &str) -> (r: Contract)
        ensures
            r.symbol@ == symbol@,
            r.sec_type == SecType::Stock,
            r.expiration is None,
            r.is_call is None,
            r.strike_thousandths is None,
    {
        Contract {
            symbol: symbol.to_owned(),
            sec_type: SecType::Stock,
            expiration: None,
            is_call: None,
            strike_thousandths: None,
        }
    }

    /// A field-for-field copy of this contract.
    pub fn copy(&self) -> (r: Contract)
        ensures
            r == *self,
    {
        Contract {
            symbol: self.symbol.clone(),
            sec_type: self.sec_type,
            expiration: self.expiration,
            is_call: self.is_call,
            strike_thousandths: self.strike_thousandths,
        }
    }
}

/// What identifies a contract: its symbol's characters and its fields.
pub type ContractKey = (Seq<char>, SecType, Option<i32>, Option<bool>, Option<i32>);

/// The identity of a contract.
pub open spec fn contract_key(c: Contract) -> ContractKey {
    (c.symbol@, c.sec_type, c.expiration, c.is_call, c.strike_thousandths)
}

impl Contract {
    /// Whether two contracts name the same instrument (same symbol text and
    /// fields).
    pub fn same_as(&self, other: &Contract) -> (r: bool)
        ensures
            r == (contract_key(*self) == contract_key(*other)),
    {
        str_eq(self.symbol.as_str(), other.symbol.as_str()) && self.sec_type == other.sec_type
            && self.expiration == other.expiration && self.is_call == other.is_call
            && self.strike_thousandths == other.strike_thousandths
    }
}

} // verus!
