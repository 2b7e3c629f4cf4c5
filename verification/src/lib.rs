//! A sealed-bid auction: auctions are created with a starting bid and a
//! duration, bidders commit to a hidden amount with a hash commitment, reveal
//! it later, and the highest revealed amount is recorded on the auction.
//!
//! The library holds the contract's whole state as plain values and states
//! every operation as a transition of that state.

pub mod types;
pub mod text;
pub mod hashing;
pub mod registry;
pub mod model;
pub mod contract;
pub mod laws;
