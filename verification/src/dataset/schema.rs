//! What a dataset root holds: its entries, the keys chosen among them, and
//! the search for a key.

use crate::text::same_name;
use vstd::prelude::*;

verus! {

/// One immediate child of a dataset root, as the caller listed it.
#[derive(Debug, Clone)]
pub struct Entry {
    /// The child's file name.
    pub name: String,
    /// Whether the child resolves to a directory.
    pub is_dir: bool,
}

/// The entries, each as its name and its directory flag.
pub open spec fn entry_views(entries: Seq<Entry>) -> Seq<(Seq<char>, bool)> {
    Seq::new(entries.len(), |i: int| (entries[i].name@, entries[i].is_dir))
}

/// The keys of a dataset with their kinds, each key as its characters.
pub open spec fn sub_dir_views<K>(sub_dirs: Seq<(String, K)>) -> Seq<(Seq<char>, K)> {
    Seq::new(sub_dirs.len(), |i: int| (sub_dirs[i].0@, sub_dirs[i].1))
}

/// `key` is one of the keys of `sub_dirs`.
pub open spec fn has_key<K>(sub_dirs: Seq<(Seq<char>, K)>, key: Seq<char>) -> bool {
    exists|i: int| 0 <= i < sub_dirs.len() && (#[trigger] sub_dirs[i]).0 == key
}

/// No key occurs twice.
pub open spec fn distinct_keys<K>(sub_dirs: Seq<(Seq<char>, K)>) -> bool {
    forall|i: int, j: int|
        0 <= i < j < sub_dirs.len() ==> (#[trigger] sub_dirs[i]).0 != (#[trigger] sub_dirs[j]).0
}

/// Every key has the kind that `classify` gives its name.
pub open spec fn classified_by<K>(
    classify: spec_fn(Seq<char>) -> Option<K>,
    sub_dirs: Seq<(Seq<char>, K)>,
) -> bool {
    forall|i: int|
        0 <= i < sub_dirs.len() ==> classify((#[trigger] sub_dirs[i]).0) == Some(sub_dirs[i].1)
}

/// The keys that a listing gives: the directories whose name `classify`
/// recognises, in the order of the listing, each name once.
pub open spec fn selected<K>(
    classify: spec_fn(Seq<char>) -> Option<K>,
    entries: Seq<(Seq<char>, bool)>,
) -> Seq<(Seq<char>, K)>
    decreases entries.len(),
{
    if entries.len() == 0 {
        Seq::empty()
    } else {
        let before = selected(classify, entries.drop_last());
        let (name, is_dir) = entries.last();
        match classify(name) {
            Some(kind) => if is_dir && !has_key(before, name) {
                before.push((name, kind))
            } else {
                before
            },
            None => before,
        }
    }
}

/// The keys selected from a listing are distinct, carry the kind of their
/// name, and are exactly the recognised directory names of the listing.
pub proof fn lemma_selected<K>(
    classify: spec_fn(Seq<char>) -> Option<K>,
    entries: Seq<(Seq<char>, bool)>,
)
    ensures
        distinct_keys(selected(classify, entries)),
        classified_by(classify, selected(classify, entries)),
        forall|name: Seq<char>|
            has_key(selected(classify, entries), name) <==> (classify(name) is Some
                && entries.contains((name, true))),
    decreases entries.len(),
{
    let chosen = selected(classify, entries);
    if entries.len() > 0 {
        let shorter = entries.drop_last();
        let before = selected(classify, shorter);
        lemma_selected(classify, shorter);
        let last = entries.last();
        assert forall|name: Seq<char>|
            has_key(chosen, name) <==> (classify(name) is Some && entries.contains(
                (name, true),
            )) by {
            if has_key(chosen, name) {
                let i = choose|i: int| 0 <= i < chosen.len() && (#[trigger] chosen[i]).0 == name;
                if i < before.len() {
                    assert(before[i].0 == name);
                    assert(has_key(before, name));
                    assert(shorter.contains((name, true)));
                    let j = choose|j: int| 0 <= j < shorter.len() && shorter[j] == (name, true);
                    assert(entries[j] == (name, true));
                } else {
                    assert(last.0 == name && last.1);
                    assert(entries[entries.len() - 1] == (name, true));
                }
            }
            if classify(name) is Some && entries.contains((name, true)) {
                let j = choose|j: int| 0 <= j < entries.len() && entries[j] == (name, true);
                if j < shorter.len() {
                    assert(shorter[j] == (name, true));
                    assert(shorter.contains((name, true)));
                    assert(has_key(before, name));
                    let i = choose|i: int|
                        0 <= i < before.len() && (#[trigger] before[i]).0 == name;
                    assert(chosen[i].0 == name);
                } else if has_key(before, name) {
                    let i = choose|i: int|
                        0 <= i < before.len() && (#[trigger] before[i]).0 == name;
                    assert(chosen[i].0 == name);
                } else {
                    assert(last == (name, true));
                    assert(chosen == before.push((name, classify(name).unwrap())));
                    assert(chosen[chosen.len() - 1].0 == name);
                }
            }
        }
    }
}

/// The place of `key` among the keys of `sub_dirs`: the first one, where
/// there are several.
pub fn position<K>(sub_dirs: &Vec<(String, K)>, key: &str) -> (place: Option<usize>)
    ensures
        place is Some <==> has_key(sub_dir_views(sub_dirs@), key@),
        place matches Some(i) ==> i < sub_dirs.len() && sub_dirs[i as int].0@ == key@ && forall|
            j: int,
        |
            0 <= j < i ==> sub_dirs[j].0@ != key@,
{
    let ghost views = sub_dir_views(sub_dirs@);
    let mut i: usize = 0;
    while i < sub_dirs.len()
        invariant
            i <= sub_dirs.len(),
            views == sub_dir_views(sub_dirs@),
            forall|j: int| 0 <= j < i ==> sub_dirs[j].0@ != key@,
        decreases sub_dirs.len() - i,
    {
        if same_name(sub_dirs[i].0.as_str(), key) {
            assert(views[i as int].0 == key@);
            return Some(i);
        }
        i = i + 1;
    }
    assert forall|j: int| 0 <= j < views.len() implies (#[trigger] views[j]).0 != key@ by {
        assert(sub_dirs[j].0@ != key@);
    }
    None
}

} // verus!
