//! Series registry, minting engine and mint-id indirection of a token
//! ledger, as verified state transitions over an in-memory store.
pub mod token_id;
pub mod types;
pub mod contract;
pub mod storage;
pub mod laws;
