//! Subnet scoring: validators submit weights for miners each epoch, and a
//! finalized epoch publishes a stake-weighted, outlier-clipped consensus
//! weight per miner together with trust scores for miners and validators.
//! Around that core: the registry of subnets and neurons (records, their byte
//! encoding, and the registry instructions), staking, emission shares and
//! the global metagraph.

pub mod types;
pub mod median;
mod wide;
pub mod clip;
pub mod aggregate;
pub mod trust;
pub mod epoch;
pub mod theorems;
pub mod ordering;
pub mod bytes;
pub mod instruction;
pub mod state;
pub mod registry;
pub mod staking;
pub mod emissions;
pub mod hive;
