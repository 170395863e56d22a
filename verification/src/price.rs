//! Wire price cells: an integer value with a decimal-exponent price type.
//!
//! A price's real value is `value * 10^(price_type - 10)`; the wire price
//! type is valid only in `0..=MAX_PRICE_TYPE`.

use vstd::prelude::*;

verus! {

/// Largest valid wire price type.
pub const MAX_PRICE_TYPE: i32 = 19;

/// A validated wire price.
#[derive(Debug, Clone, Copy, PartialEq, Eq, Structural, Hash)]
pub struct Price {
    value: i32,
    price_type: i32,
}

/// A price type outside `0..=MAX_PRICE_TYPE`.
#[derive(Debug, Clone, Copy, PartialEq, Eq, Structural)]
pub struct InvalidPriceType {
    pub price_type: i32,
}

/// Whether a wire price type is valid.
pub open spec fn valid_price_type(price_type: int) -> bool {
    0 <= price_type <= MAX_PRICE_TYPE
}

impl Price {
    /// The raw integer value.
    pub closed spec fn spec_value(&self) -> i32 {
        self.value
    }

    /// The decimal-exponent price type.
    pub closed spec fn spec_price_type(&self) -> i32 {
        self.price_type
    }

    /// The price with the given raw value and price type.
    pub closed spec fn spec_make(value: i32, price_type: i32) -> Price {
        Price { value, price_type }
    }

    /// Every price holds a valid price type.
    pub closed spec fn well_formed(&self) -> bool {
        valid_price_type(self.price_type as int)
    }

    /// Build a price from its wire cell; refused when the price type is out
    /// of range.
    pub fn with_value_and_type(value: i32, price_type: i32) -> (r: Result<Price, InvalidPriceType>)
        ensures
            valid_price_type(price_type as int) <==> r is Ok,
            r matches Ok(p) ==> p.spec_value() == value && p.spec_price_type() == price_type
                && p.well_formed() && p == Price::spec_make(value, price_type),
            r matches Err(e) ==> e.price_type == price_type,
    {
        if 0 <= price_type && price_type <= MAX_PRICE_TYPE {
            Ok(Price { value, price_type })
        } else {
            Err(InvalidPriceType { price_type })
        }
    }

    /// The raw integer value.
    pub fn value(&self) -> (r: i32)
        ensures
            r == self.spec_value(),
    {
        self.value
    }

    /// The decimal-exponent price type.
    pub fn price_type(&self) -> (r: i32)
        ensures
            r == self.spec_price_type(),
    {
        self.price_type
    }
}


/// A price made from a wire cell holds exactly that value and price type.
pub proof fn made_price_keeps_its_cell(value: i32, price_type: i32)
    ensures
        Price::spec_make(value, price_type).spec_value() == value,
        Price::spec_make(value, price_type).spec_price_type() == price_type,
{
}

} // verus!
