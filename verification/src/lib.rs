//! Verified core of the ephemeral rollups token escrow programs.
//!
//! The on-chain processors are written here as functions from plain account
//! snapshots and instruction bytes to either a program error or the ordered
//! list of steps (account data writes and cross-program invocations) that
//! the processor performs.
pub mod error;
pub mod codec;
pub mod account;
pub mod pda;
pub mod programs;
pub mod cpi;
pub mod state;
pub mod bridge;
pub mod instruction;
pub mod wrapper;
pub mod run;
