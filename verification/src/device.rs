//! Device capability contracts that carry no floating-point data.
//!
//! These say what the control stack may ask of a device, not how a driver answers; a
//! driver for a concrete device implements them next to its hardware.

use vstd::prelude::*;

verus! {

/// A camera: the narrow contract the rest of the stack needs — does a frame exist, and
/// what does it look like.
pub trait Camera {
    /// Resolution the sensor is currently running at, `(width, height)`.
    fn resolution(&self) -> (u16, u16);

    /// True when the latest frame was decoded successfully; false while the pipeline is
    /// starting, or after a stall.
    fn frame_ready(&self) -> bool;
}

} // verus!
