//! vibe-hal: the hardware abstraction layer of VibeBuddy OS.
//!
//! - [`descriptor`] holds the hardware descriptor of a robot form and the invariant checks
//!   every descriptor must pass.
//! - [`bus`] holds the runtime motor-bus error vocabulary.
//! - [`device`] holds the device capability contracts that carry no floating-point data.
//! - [`scan`] holds the decisions of the bus-scan field tool: its command line and the
//!   cross-check of the ids that answered against a descriptor.
//! - [`scan_laws`] states what the scan tool's command line means, word by word, and
//!   proves the parser gives exactly that.
//! - [`limit_bits`] compares joint limits given as IEEE-754 binary64 bit patterns.

pub mod bus;
pub mod descriptor;
pub mod device;
pub mod limit_bits;
pub mod scan;
pub mod scan_laws;
