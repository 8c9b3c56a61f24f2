//! Verified on-ledger storage of the TrustBridge contributor registry.

pub mod audit;
pub mod codec;
pub mod host;
pub mod keys;
pub mod laws;
pub mod ledger;
pub mod storage;
pub mod types;
pub mod usernames;
pub mod value;
