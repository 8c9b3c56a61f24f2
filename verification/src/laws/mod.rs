//! What holds of the storage operations together.

pub mod access;
pub mod audit;
pub mod entries;
pub mod index;
pub mod layout;
pub mod ledger;
pub mod lifetimes;
pub mod operations;
pub mod pages;
pub mod reserved;
