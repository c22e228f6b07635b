//! Capacity commitment prover: the decisions that keep the proving threads of a host
//! aligned with the compute units the network assigns to it.

pub mod alignment;
pub mod allocation;
pub mod config;
pub mod errors;
pub mod hashrate;
pub mod job;
pub mod messages;
pub mod nonce;
pub mod proofs;
pub mod roadmap;
pub mod status;
pub mod types;
