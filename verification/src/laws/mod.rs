//! The laws of the protocol: what holds of every request in every state.
pub mod acceptance;
pub mod authority;
pub mod consistency;
pub mod effects;
pub mod escrow;
pub mod history;
pub mod log;
pub mod meaning;
pub mod records;
pub mod registry;
pub mod schedule;
pub mod slashing;
pub mod tallies;
