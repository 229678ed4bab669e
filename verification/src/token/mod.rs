//! The token contract: a contract of the host's own for each asset.

pub mod admin;
pub mod allowance;
pub mod asset_info;
pub mod balance;
pub mod contract;
pub mod effects;
pub mod event;
pub mod instance;
pub mod laws;
pub mod metadata;
