//! Hashrate bookkeeping: what proving threads report, and the statistics kept from it.

pub mod collector;
pub mod hashrate_collector;
pub mod record;
pub mod sliding_collector;
