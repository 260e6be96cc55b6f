//! The verified core of a TON testnet faucet.

pub mod challenge;
pub mod claim;
pub mod client;
pub mod config;
pub mod json;
pub mod pow;
pub mod retry;
pub mod text;
pub mod transfer;
pub mod wallet;
