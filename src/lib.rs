//! An escrow for one fixed-terms exchange of two fungible tokens.
//!
//! A seller locks an amount of one token in a vault whose address is derived
//! from the seller and the two mints; any buyer can complete the exchange in a
//! single step, or the seller can take the locked tokens back.

pub mod address;
pub mod keyed;
pub mod ledger;
pub mod escrow;
