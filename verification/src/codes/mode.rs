//! The mode of a GPS receiver: a small number, or -1 where it is not known.

use crate::error::Error;
use vstd::prelude::*;

verus! {

/// The number written for `mode`: the mode taken as a signed byte, -1 where
/// there is none.
pub open spec fn code_of(mode: Option<u8>) -> int {
    match mode {
        Some(m) => if m < 128 {
            m as int
        } else {
            m as int - 256
        },
        None => -1,
    }
}

/// The mode that `code` stands for. A negative number other than -1 stands
/// for none.
pub open spec fn mode_of(code: int) -> Result<Option<u8>, Error> {
    if code >= 0 {
        Ok(Some(code as u8))
    } else if code == -1 {
        Ok(None)
    } else {
        Err(Error::InvalidModeValue(code as i8))
    }
}

/// The number to write for `mode`.
pub fn serialize(mode: &Option<u8>) -> (code: i8)
    ensures
        code == code_of(*mode),
{
    match mode {
        Some(m) => {
            if *m < 128 {
                *m as i8
            } else {
                (*m as i16 - 256) as i8
            }
        },
        None => -1,
    }
}

/// The mode read from the number `code`.
pub fn deserialize(code: i8) -> (mode: Result<Option<u8>, Error>)
    ensures
        mode == mode_of(code as int),
{
    if code < 0 {
        if code != -1 {
            return Err(Error::InvalidModeValue(code));
        }
        Ok(None)
    } else {
        Ok(Some(code as u8))
    }
}

/// A mode under 128, and the lack of one, are read back as they were
/// written.
pub proof fn lemma_mode_round_trip(mode: Option<u8>)
    requires
        mode matches Some(m) ==> m < 128,
    ensures
        mode_of(code_of(mode)) == Ok::<Option<u8>, Error>(mode),
{
}

} // verus!
