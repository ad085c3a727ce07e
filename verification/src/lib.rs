//! Verified building blocks for token-vesting smart contracts.
//!
//! The heart of the crate is the vesting engine: a [`schedule::VestingSchedule`]
//! value type that computes linearly accrued release amounts against a logical
//! clock, a [`storage::VestingData`] store that keeps the live schedules of every
//! (beneficiary, asset) pair densely indexed and compacts them by swapping the
//! last slot into a freed one, and a [`vester::Vester`] engine that combines the
//! store with a transfer gateway and produces the domain events.
//!
//! Host concerns — who called, what the clock reads, how value actually moves —
//! enter through plain arguments and through the [`vester::VestingEnv`] trait,
//! so every decision the engine makes is proved, for every behaviour of the
//! host.

pub mod types;

pub mod errors;

pub mod schedule;

pub mod storage;

pub mod vester;

pub mod access;

pub mod ownable;

pub mod security;

pub mod psp22;

pub mod psp34;

pub mod crypto;

pub mod hashing;

