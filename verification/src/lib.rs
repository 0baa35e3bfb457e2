//! Value model for Ethereum transaction receipts.
//!
//! The crate defines checked numeric domain types (256-bit wei amounts,
//! wei-per-gas prices, gas and block counters), the two-valued transaction
//! status with its strict 256-bit wire mapping, the receipt aggregate with
//! its derived effective fee, and the response-canonicalization capability
//! tag honoured by the networking layer.

pub mod eth_rpc;
pub mod numeric;
pub mod responses;
pub mod u256;
