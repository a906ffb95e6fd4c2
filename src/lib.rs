//! A per-owner counter record kept in a program-owned account: the fixed
//! binary layout of the record, the derivation of its address, the decoding
//! of requests and the handlers that create, increment and close it.
pub mod error;
pub mod state;
pub mod instruction;
pub mod address;
pub mod account;
pub mod processor;
