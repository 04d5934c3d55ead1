//! The runtime motor-bus error vocabulary.
//!
//! The motor-bus transaction shape itself (samples and targets of radians) carries
//! floating-point data and lives beside the drivers; what a failed transaction reports is
//! shared here.

use vstd::prelude::*;

verus! {

/// Why a bus transaction failed. A read failure is retried on the next tick; a write
/// failure is the first thing the safety layer reports.
#[derive(Debug)]
pub enum BusError {
    /// The bus is not present.
    NotPresent,
    /// The bus transaction failed, with the transport's account of why.
    Transport(String),
    /// A short read: `expected` joints were asked for, `got` answered.
    ShortRead { expected: usize, got: usize },
}

} // verus!
