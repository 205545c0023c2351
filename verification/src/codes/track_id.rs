//! The track that a labelled object belongs to: a number from zero up, or
//! a negative number where the object belongs to none.

use vstd::prelude::*;

verus! {

/// The number written for `track_id`: the track taken as a signed word, -1
/// where there is none.
pub open spec fn code_of(track_id: Option<u32>) -> int {
    match track_id {
        Some(t) => if t < 0x8000_0000 {
            t as int
        } else {
            t as int - 0x1_0000_0000
        },
        None => -1,
    }
}

/// The track that `code` stands for: every negative number stands for none.
pub open spec fn track_of(code: int) -> Option<u32> {
    if code >= 0 {
        Some(code as u32)
    } else {
        None
    }
}

/// The number to write for `track_id`.
pub fn serialize(track_id: &Option<u32>) -> (code: i32)
    ensures
        code == code_of(*track_id),
{
    match track_id {
        Some(t) => {
            if *t < 0x8000_0000 {
                *t as i32
            } else {
                (*t as i64 - 0x1_0000_0000) as i32
            }
        },
        None => -1,
    }
}

/// The track read from the number `code`.
pub fn deserialize(code: i32) -> (track_id: Option<u32>)
    ensures
        track_id == track_of(code as int),
{
    if code >= 0 {
        Some(code as u32)
    } else {
        None
    }
}

/// A track under 2^31, and the lack of one, are read back as they were
/// written.
pub proof fn lemma_track_round_trip(track_id: Option<u32>)
    requires
        track_id matches Some(t) ==> t < 0x8000_0000,
    ensures
        track_of(code_of(track_id)) == track_id,
{
}

} // verus!
