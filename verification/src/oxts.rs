//! The receiver status of a navigation record.

use vstd::prelude::*;

verus! {

/// What the GPS receiver reported of itself.
#[derive(Debug, Clone, Copy, PartialEq, Eq, Structural)]
pub struct GpsStatus {
    /// Navigation status.
    pub navstat: u8,
    /// Number of satellites tracked by the primary receiver.
    pub numsats: u8,
    /// Position mode of the primary receiver.
    pub posmode: Option<u8>,
    /// Velocity mode of the primary receiver.
    pub velmode: Option<u8>,
    /// Orientation mode of the primary receiver.
    pub orimode: Option<u8>,
}

} // verus!
