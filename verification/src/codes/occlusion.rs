//! How much of a labelled object is hidden.

use crate::error::Error;
use vstd::prelude::*;

verus! {

/// The occlusion state of a labelled object.
#[derive(Debug, Clone, Copy, PartialEq, Eq, Hash, Structural)]
pub enum Occlusion {
    FullyVisible,
    PartlyVisible,
    LargelyOccluded,
    Unknown,
}

impl Occlusion {
    /// The number of this state.
    pub open spec fn code(self) -> int {
        match self {
            Occlusion::FullyVisible => 0,
            Occlusion::PartlyVisible => 1,
            Occlusion::LargelyOccluded => 2,
            Occlusion::Unknown => 3,
        }
    }

    /// The state numbered `value`, if there is one.
    pub open spec fn of_code(value: int) -> Option<Occlusion> {
        if value == 0 {
            Some(Occlusion::FullyVisible)
        } else if value == 1 {
            Some(Occlusion::PartlyVisible)
        } else if value == 2 {
            Some(Occlusion::LargelyOccluded)
        } else if value == 3 {
            Some(Occlusion::Unknown)
        } else {
            None
        }
    }

    /// The state numbered `value`, if there is one.
    pub fn from_u8(value: u8) -> (state: Option<Occlusion>)
        ensures
            state == Occlusion::of_code(value as int),
    {
        if value == 0 {
            Some(Occlusion::FullyVisible)
        } else if value == 1 {
            Some(Occlusion::PartlyVisible)
        } else if value == 2 {
            Some(Occlusion::LargelyOccluded)
        } else if value == 3 {
            Some(Occlusion::Unknown)
        } else {
            None
        }
    }
}

/// The number written for `occlusion`: the number of the state, -1 where
/// there is none.
pub open spec fn code_of(occlusion: Option<Occlusion>) -> int {
    match occlusion {
        Some(state) => state.code(),
        None => -1,
    }
}

/// The state that `code` stands for. Only -1 and the numbers of the four
/// states stand for anything.
pub open spec fn occlusion_of(code: int) -> Result<Option<Occlusion>, Error> {
    if code == -1 {
        Ok(None)
    } else {
        match Occlusion::of_code(code) {
            Some(state) => Ok(Some(state)),
            None => Err(Error::InvalidOcclusionValue(code as i8)),
        }
    }
}

/// The number to write for `occlusion`.
pub fn serialize(occlusion: &Option<Occlusion>) -> (code: i8)
    ensures
        code == code_of(*occlusion),
{
    match occlusion {
        Some(Occlusion::FullyVisible) => 0,
        Some(Occlusion::PartlyVisible) => 1,
        Some(Occlusion::LargelyOccluded) => 2,
        Some(Occlusion::Unknown) => 3,
        None => -1,
    }
}

/// The state read from the number `code`.
pub fn deserialize(code: i8) -> (occlusion: Result<Option<Occlusion>, Error>)
    ensures
        occlusion == occlusion_of(code as int),
{
    if code < 0 {
        if code != -1 {
            return Err(Error::InvalidOcclusionValue(code));
        }
        Ok(None)
    } else {
        match Occlusion::from_u8(code as u8) {
            Some(state) => Ok(Some(state)),
            None => Err(Error::InvalidOcclusionValue(code)),
        }
    }
}

/// Every state, and the lack of one, is read back as it was written.
pub proof fn lemma_occlusion_round_trip(occlusion: Option<Occlusion>)
    ensures
        occlusion_of(code_of(occlusion)) == Ok::<Option<Occlusion>, Error>(occlusion),
{
}

} // verus!
