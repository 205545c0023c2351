//! The layout of calibration files: which lines a file of each benchmark
//! holds, in which order, and how many numbers follow the name on each.
//!
//! The numbers themselves are floating-point text and are read elsewhere;
//! here a line is its name and the count of what follows.

use crate::error::Error;
use crate::text::same_name;
use vstd::prelude::*;
use vstd::string::*;

verus! {

/// The number of values in a 3x4 projection matrix.
pub const PROJECTION_VALUES: usize = 12;

/// The number of values in a 3x3 rectification matrix.
pub const RECT_VALUES: usize = 9;

/// The benchmark that a calibration file belongs to.
#[derive(Debug, Clone, Copy, PartialEq, Eq, Hash, Structural)]
pub enum CalibKind {
    Object,
    Tracking,
    Odometry,
}

impl CalibKind {
    /// The lines of a file of this kind: the name that each begins with and
    /// the number of values after it.
    pub open spec fn layout(self) -> Seq<(Seq<char>, nat)> {
        match self {
            CalibKind::Object => seq![
                ("P0:"@, 12nat),
                ("P1:"@, 12nat),
                ("P2:"@, 12nat),
                ("P3:"@, 12nat),
                ("R0_rect:"@, 9nat),
                ("Tr_velo_to_cam:"@, 12nat),
                ("Tr_imu_to_velo:"@, 12nat),
            ],
            CalibKind::Tracking => seq![
                ("P0:"@, 12nat),
                ("P1:"@, 12nat),
                ("P2:"@, 12nat),
                ("P3:"@, 12nat),
                ("R_rect"@, 9nat),
                ("Tr_velo_cam"@, 12nat),
                ("Tr_imu_velo"@, 12nat),
            ],
            CalibKind::Odometry => seq![
                ("P0:"@, 12nat),
                ("P1:"@, 12nat),
                ("P2:"@, 12nat),
                ("P3:"@, 12nat),
                ("Tr:"@, 12nat),
            ],
        }
    }

    /// The number of lines that a file of this kind must hold.
    pub fn num_lines(&self) -> (count: usize)
        ensures
            count == self.layout().len(),
    {
        match self {
            CalibKind::Object => 7,
            CalibKind::Tracking => 7,
            CalibKind::Odometry => 5,
        }
    }

    /// The name and the number of values of line `line`; none past the last
    /// line.
    pub fn line(&self, line: usize) -> (field: Option<(&'static str, usize)>)
        ensures
            field is Some <==> line < self.layout().len(),
            field matches Some((name, values)) ==> name@ == self.layout()[line as int].0 && values
                == self.layout()[line as int].1,
    {
        if line < 4 {
            let name = if line == 0 {
                "P0:"
            } else if line == 1 {
                "P1:"
            } else if line == 2 {
                "P2:"
            } else {
                "P3:"
            };
            return Some((name, PROJECTION_VALUES));
        }
        match self {
            CalibKind::Object => {
                if line == 4 {
                    Some(("R0_rect:", RECT_VALUES))
                } else if line == 5 {
                    Some(("Tr_velo_to_cam:", PROJECTION_VALUES))
                } else if line == 6 {
                    Some(("Tr_imu_to_velo:", PROJECTION_VALUES))
                } else {
                    None
                }
            },
            CalibKind::Tracking => {
                if line == 4 {
                    Some(("R_rect", RECT_VALUES))
                } else if line == 5 {
                    Some(("Tr_velo_cam", PROJECTION_VALUES))
                } else if line == 6 {
                    Some(("Tr_imu_velo", PROJECTION_VALUES))
                } else {
                    None
                }
            },
            CalibKind::Odometry => {
                if line == 4 {
                    Some(("Tr:", PROJECTION_VALUES))
                } else {
                    None
                }
            },
        }
    }

    /// What is wrong with line `line` of a file of this kind, given the name
    /// that the line begins with and the number of values after it. The name
    /// is looked at first. A line past the last one is never wrong.
    pub open spec fn line_result(self, line: nat, name: Seq<char>, values: nat) -> Result<
        (),
        Error,
    > {
        if line >= self.layout().len() {
            Ok(())
        } else if name != self.layout()[line as int].0 {
            Err(Error::UnexpectedCalibName { line: line as usize })
        } else if values != self.layout()[line as int].1 {
            Err(
                Error::UnexpectedCalibValues {
                    line: line as usize,
                    expected: self.layout()[line as int].1 as usize,
                    found: values as usize,
                },
            )
        } else {
            Ok(())
        }
    }

    /// Validates line `line` of a file of this kind: its name, then the number
    /// of its values.
    pub fn validate_line(&self, line: usize, name: &str, values: usize) -> (result: Result<(), Error>)
        ensures
            result == self.line_result(line as nat, name@, values as nat),
    {
        match self.line(line) {
            None => Ok(()),
            Some((expect_name, expect_values)) => {
                if !same_name(name, expect_name) {
                    Err(Error::UnexpectedCalibName { line })
                } else if values != expect_values {
                    Err(Error::UnexpectedCalibValues { line, expected: expect_values, found: values })
                } else {
                    Ok(())
                }
            },
        }
    }
}

} // verus!
