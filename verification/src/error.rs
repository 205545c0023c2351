//! What decoding can fail with.

use vstd::prelude::*;

verus! {

/// A failure of the library.
#[derive(Debug, Clone, Copy, PartialEq, Eq, Structural)]
pub enum Error {
    /// A stream of point records ended inside a record: after `records`
    /// whole records there were `trailing` more bytes, fewer than a record
    /// takes.
    Truncated { records: usize, trailing: usize },
    /// Line `line` of a calibration file does not begin with the name that
    /// stands at that place.
    UnexpectedCalibName { line: usize },
    /// Line `line` of a calibration file holds `found` values where
    /// `expected` belong.
    UnexpectedCalibValues { line: usize, expected: usize, found: usize },
    /// A receiver mode was written as a negative number other than -1.
    InvalidModeValue(i8),
    /// An occlusion state was written as a number other than -1, 0, 1, 2
    /// or 3.
    InvalidOcclusionValue(i8),
}

} // verus!
