//! Automation engine for ledger programs: queues of chained instructions that
//! off-chain workers advance, with the trigger rules, the queue lifecycle and
//! the batch builder proved against their contracts.
pub mod address;
pub mod builder;
pub mod cron;
pub mod error;
pub mod instruction;
pub mod network;
pub mod pool_create;
pub mod queue;
pub mod registry_epoch_kickoff;
pub mod snapshot_delete;
pub mod trigger;
