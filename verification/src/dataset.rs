//! Dataset indexes, and the probing that finds how many items a directory
//! holds.

use crate::naming::{create_file_name, ext_view, item_path, join_path};
use vstd::prelude::*;

pub mod object;
pub mod schema;
pub mod tracking;

pub use object::ObjectDataset;
pub use schema::Entry;
pub use tracking::TrackingDataset;

verus! {

/// The existence predicate answered `answer` for the path of item `idx` of
/// the directory `dir`.
pub open spec fn probed<F: Fn(String) -> bool>(
    present: &F,
    dir: Seq<char>,
    width: nat,
    ext: Option<Seq<char>>,
    idx: nat,
    answer: bool,
) -> bool {
    exists|p: String|
        p@ == item_path(dir, width, ext, idx) && #[trigger] call_ensures(*present, (p,), answer)
}

/// The predicate finds exactly the items `0..count` of the directory `dir`:
/// whatever it answers for item `idx` is `idx < count`.
pub open spec fn holds_exactly<F: Fn(String) -> bool>(
    present: &F,
    dir: Seq<char>,
    width: nat,
    ext: Option<Seq<char>>,
    count: nat,
) -> bool {
    forall|idx: nat, answer: bool| #[trigger]
        probed(present, dir, width, ext, idx, answer) ==> answer == (idx < count)
}

/// `count` is a boundary that the predicate has confirmed in `dir`: the
/// item before it was found and the item at it was not. At zero, items 0 and
/// 1 were both not found. At `usize::MAX` the count also stands where even
/// that item was found.
pub open spec fn counted<F: Fn(String) -> bool>(
    present: &F,
    dir: Seq<char>,
    width: nat,
    ext: Option<Seq<char>>,
    count: nat,
) -> bool {
    if count == 0 {
        probed(present, dir, width, ext, 0, false) && probed(present, dir, width, ext, 1, false)
    } else {
        ||| probed(present, dir, width, ext, (count - 1) as nat, true) && probed(
            present,
            dir,
            width,
            ext,
            count,
            false,
        )
        ||| count == usize::MAX && probed(present, dir, width, ext, count, true)
    }
}

/// A confirmed boundary is the number of items, where the predicate finds
/// exactly the items below some number.
pub proof fn lemma_counted_exact<F: Fn(String) -> bool>(
    present: &F,
    dir: Seq<char>,
    width: nat,
    ext: Option<Seq<char>>,
    count: nat,
    n: nat,
)
    requires
        counted(present, dir, width, ext, count),
        holds_exactly(present, dir, width, ext, n),
        n <= usize::MAX,
    ensures
        count == n,
{
}

/// Asks the predicate whether item `idx` of `dir` exists.
fn item_exists<F: Fn(String) -> bool>(
    present: &F,
    dir: &str,
    width: usize,
    ext: Option<&str>,
    idx: usize,
) -> (answer: bool)
    requires
        forall|p: String| call_requires(*present, (p,)),
    ensures
        probed(present, dir@, width as nat, ext_view(ext), idx as nat, answer),
{
    let name = create_file_name(idx, width, ext);
    let path = join_path(dir, name.as_str());
    let ghost asked = path;
    let answer = present(path);
    assert(asked@ == item_path(dir@, width as nat, ext_view(ext), idx as nat) && call_ensures(
        *present,
        (asked,),
        answer,
    ));
    answer
}

/// Counts the items of `dir` that are numbered from zero without a gap, by
/// asking for single paths only.
///
/// Items `1, 2, 4, 8, ..` are asked for until one is missing; the boundary
/// between the last one found and the first one missing is then bisected.
/// When item 1 is missing, item 0 decides between a count of zero and one.
/// The count is always a boundary that the predicate has confirmed: the item
/// before it was found and the item at it was not. A directory that holds
/// every item up to `usize::MAX` gives `usize::MAX`.
pub fn probe_max_frames<F: Fn(String) -> bool>(
    dir: &str,
    width: usize,
    ext: Option<&str>,
    present: &F,
) -> (count: usize)
    requires
        forall|p: String| call_requires(*present, (p,)),
    ensures
        counted(present, dir@, width as nat, ext_view(ext), count as nat),
        forall|n: nat|
            n <= usize::MAX && holds_exactly(present, dir@, width as nat, ext_view(ext), n)
                ==> count == n,
{
    let ghost d = dir@;
    let ghost w = width as nat;
    let ghost e = ext_view(ext);
    if !item_exists(present, dir, width, ext, 1) {
        if item_exists(present, dir, width, ext, 0) {
            return 1;
        }
        return 0;
    }
    let mut low: usize = 1;
    let mut high: usize = usize::MAX;
    let mut bounded = false;
    while !bounded && low <= usize::MAX / 2
        invariant
            forall|p: String| call_requires(*present, (p,)),
            d == dir@,
            w == width as nat,
            e == ext_view(ext),
            1 <= low < usize::MAX,
            probed(present, d, w, e, low as nat, true),
            bounded ==> low < high && probed(present, d, w, e, high as nat, false),
            !bounded ==> high == usize::MAX,
        decreases (if bounded { 0int } else { 1int }), usize::MAX - low,
    {
        assert(usize::MAX % 2 == 1);
        let next: usize = low * 2;
        if item_exists(present, dir, width, ext, next) {
            low = next;
        } else {
            high = next;
            bounded = true;
        }
    }
    if !bounded {
        if item_exists(present, dir, width, ext, usize::MAX) {
            return usize::MAX;
        }
    }
    while low + 1 < high
        invariant
            forall|p: String| call_requires(*present, (p,)),
            d == dir@,
            w == width as nat,
            e == ext_view(ext),
            1 <= low < high,
            probed(present, d, w, e, low as nat, true),
            probed(present, d, w, e, high as nat, false),
        decreases high - low,
    {
        let mid: usize = low + (high - low) / 2;
        if item_exists(present, dir, width, ext, mid) {
            low = mid;
        } else {
            high = mid;
        }
    }
    high
}

} // verus!
