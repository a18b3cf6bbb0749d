//! Verified core logic of the Grainlify Soroban contracts: per-operation gas
//! budget checks, the multisig approval engine, and deterministic
//! pseudo-random candidate selection.

pub mod gas_budget;
pub mod address;
pub mod host;
pub mod multisig;
pub mod pseudo_randomness;
