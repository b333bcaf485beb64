//! Stake bonding ledger and validator/nominator selection engine of a
//! proof-of-stake runtime.
pub mod sums;
pub mod bond;
pub mod nominations;
pub mod collator;
pub mod nominator;
pub mod leaving;
pub mod round;
pub mod keyed;
pub mod pallet;
pub mod orchestrator;
pub mod election;
pub mod laws;
