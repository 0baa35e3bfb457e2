//! Checked numeric domain types.
//!
//! Each quantity of the receipt model carries its own semantic wrapper:
//! a wei amount, a wei-per-gas price, a gas amount, and a block number.
//! Monetary quantities live in the 256-bit domain; gas and block counters
//! are 64-bit. All arithmetic is overflow-checked, and the only cross-type
//! operation is the unit-aware `price * gas -> amount` multiplication.

use vstd::prelude::*;
use crate::u256::U256;
use crate::u256::u256_bound;

verus! {

/// An amount of wei, the smallest unit of the chain's native currency.
#[derive(Clone, Copy, Debug, PartialEq, Eq, Structural)]
pub struct Wei(pub U256);

impl View for Wei {
    type V = nat;

    open spec fn view(&self) -> nat {
        self.0@
    }
}

impl Wei {
    /// Wraps a 256-bit value as a wei amount; construction never fails.
    pub fn new(value: U256) -> (r: Wei)
        ensures
            r@ == value@,
    {
        Wei(value)
    }

    /// Whether this amount is strictly below another.
    pub fn less_than(&self, other: &Wei) -> (r: bool)
        ensures
            r <==> self@ < other@,
    {
        self.0.less_than(&other.0)
    }

    /// Overflow-checked addition of two wei amounts.
    pub fn checked_add(&self, other: &Wei) -> (r: Option<Wei>)
        ensures
            r is Some <==> self@ + other@ < u256_bound(),
            r matches Some(s) ==> s@ == self@ + other@,
    {
        match self.0.checked_add(&other.0) {
            Some(v) => Some(Wei(v)),
            None => None,
        }
    }
}

/// A price in wei per unit of gas.
#[derive(Clone, Copy, Debug, PartialEq, Eq, Structural)]
pub struct WeiPerGas(pub U256);

impl View for WeiPerGas {
    type V = nat;

    open spec fn view(&self) -> nat {
        self.0@
    }
}

impl WeiPerGas {
    /// Wraps a 256-bit value as a wei-per-gas price; construction never
    /// fails.
    pub fn new(value: U256) -> (r: WeiPerGas)
        ensures
            r@ == value@,
    {
        WeiPerGas(value)
    }

    /// Whether this price is strictly below another.
    pub fn less_than(&self, other: &WeiPerGas) -> (r: bool)
        ensures
            r <==> self@ < other@,
    {
        self.0.less_than(&other.0)
    }

    /// The unit-aware multiplication `price * gas -> amount`: the exact
    /// wei cost of `gas` units at this price, where it fits the monetary
    /// domain, and nothing on overflow.
    pub fn transaction_cost(&self, gas: GasAmount) -> (r: Option<Wei>)
        ensures
            r is Some <==> self@ * gas@ < u256_bound(),
            r matches Some(w) ==> w@ == self@ * gas@,
    {
        match self.0.checked_mul_u64(gas.0) {
            Some(v) => Some(Wei(v)),
            None => None,
        }
    }
}

/// An amount of gas, the chain's unit of computational work.
#[derive(Clone, Copy, Debug, PartialEq, Eq, Structural)]
pub struct GasAmount(pub u64);

impl View for GasAmount {
    type V = nat;

    open spec fn view(&self) -> nat {
        self.0 as nat
    }
}

impl GasAmount {
    /// Wraps a 64-bit counter as a gas amount; construction never fails.
    pub fn new(value: u64) -> (r: GasAmount)
        ensures
            r@ == value,
    {
        GasAmount(value)
    }

    /// Whether this gas amount is strictly below another.
    pub fn less_than(&self, other: &GasAmount) -> (r: bool)
        ensures
            r <==> self@ < other@,
    {
        self.0 < other.0
    }

    /// Overflow-checked addition of two gas amounts.
    pub fn checked_add(&self, other: &GasAmount) -> (r: Option<GasAmount>)
        ensures
            r is Some <==> self@ + other@ <= u64::MAX,
            r matches Some(s) ==> s@ == self@ + other@,
    {
        match self.0.checked_add(other.0) {
            Some(v) => Some(GasAmount(v)),
            None => None,
        }
    }
}

/// The height of a block in the chain.
#[derive(Clone, Copy, Debug, PartialEq, Eq, Structural)]
pub struct BlockNumber(pub u64);

impl View for BlockNumber {
    type V = nat;

    open spec fn view(&self) -> nat {
        self.0 as nat
    }
}

impl BlockNumber {
    /// Wraps a 64-bit counter as a block number; construction never fails.
    pub fn new(value: u64) -> (r: BlockNumber)
        ensures
            r@ == value,
    {
        BlockNumber(value)
    }

    /// Whether this block number is strictly below another.
    pub fn less_than(&self, other: &BlockNumber) -> (r: bool)
        ensures
            r <==> self@ < other@,
    {
        self.0 < other.0
    }
}

} // verus!
