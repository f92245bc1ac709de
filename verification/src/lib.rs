//! An augmented bonding curve for a commons treasury: pricing curves over
//! fixed-point decimals, phase configuration and its validation, the
//! Hatch / Open / Closed lifecycle, and the ledger that buys, burns and
//! donations act on.

pub mod error;
pub mod math;
pub mod decimal;
pub mod curves;
pub mod curve_laws;
pub mod accounts;
pub mod msg;
pub mod contract;
pub mod theorems;
pub mod token;
pub mod abc;
