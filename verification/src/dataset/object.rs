//! The object-detection layout: one file per frame in every subdirectory,
//! named by the frame number in six digits.

use crate::dataset::schema::{
    classified_by, distinct_keys, entry_views, has_key, lemma_selected, position, selected,
    sub_dir_views, Entry,
};
use crate::dataset::{counted, holds_exactly, probe_max_frames};
use crate::naming::{create_file_name, file_name, join, join_path, lemma_item_paths_differ};
use crate::text::{has_prefix, starts_with};
use vstd::prelude::*;
use vstd::string::*;

verus! {

/// The number of digits in the name of a frame file.
pub const FRAME_WIDTH: usize = 6;

/// What a subdirectory of an object dataset holds.
#[derive(Debug, Clone, Copy, PartialEq, Eq, Hash, Structural)]
pub enum DataKind {
    Image,
    Velodyne,
    Calib,
    Label,
}

impl DataKind {
    /// The extension of the files of this kind.
    pub open spec fn ext(self) -> Seq<char> {
        match self {
            DataKind::Image => "png"@,
            DataKind::Velodyne => "bin"@,
            DataKind::Calib => "txt"@,
            DataKind::Label => "txt"@,
        }
    }

    /// The kind of the subdirectory called `name`, decided by the first of
    /// the prefixes `image`, `velodyne`, `label`, `calib` that the name begins
    /// with; none where it begins with none of them.
    pub open spec fn of_name(name: Seq<char>) -> Option<DataKind> {
        if has_prefix(name, "image"@) {
            Some(DataKind::Image)
        } else if has_prefix(name, "velodyne"@) {
            Some(DataKind::Velodyne)
        } else if has_prefix(name, "label"@) {
            Some(DataKind::Label)
        } else if has_prefix(name, "calib"@) {
            Some(DataKind::Calib)
        } else {
            None
        }
    }

    /// The extension of the files of this kind.
    pub fn file_ext(&self) -> (ext: &'static str)
        ensures
            ext@ == self.ext(),
    {
        match self {
            DataKind::Image => "png",
            DataKind::Velodyne => "bin",
            DataKind::Calib => "txt",
            DataKind::Label => "txt",
        }
    }

    /// The kind of the subdirectory called `name`, if its name is recognised.
    pub fn classify(name: &str) -> (kind: Option<DataKind>)
        ensures
            kind == DataKind::of_name(name@),
    {
        if starts_with(name, "image") {
            Some(DataKind::Image)
        } else if starts_with(name, "velodyne") {
            Some(DataKind::Velodyne)
        } else if starts_with(name, "label") {
            Some(DataKind::Label)
        } else if starts_with(name, "calib") {
            Some(DataKind::Calib)
        } else {
            None
        }
    }
}

/// `DataKind::of_name` as a function value.
pub open spec fn classifier() -> spec_fn(Seq<char>) -> Option<DataKind> {
    |name: Seq<char>| DataKind::of_name(name)
}

/// The keys that a listing of the dataset root gives, with their kinds.
pub open spec fn detected(entries: Seq<(Seq<char>, bool)>) -> Seq<(Seq<char>, DataKind)> {
    selected(classifier(), entries)
}

/// The path of the file that holds frame `frame_idx` under `key`.
pub open spec fn sample_path(
    dir: Seq<char>,
    key: Seq<char>,
    kind: DataKind,
    frame_idx: nat,
) -> Seq<char> {
    join(join(dir, key), file_name(frame_idx, FRAME_WIDTH as nat, Some(kind.ext())))
}

/// Under one key, different frames lie at different paths.
pub proof fn lemma_frame_paths_differ(
    dir: Seq<char>,
    key: Seq<char>,
    kind: DataKind,
    a: nat,
    b: nat,
)
    requires
        a != b,
    ensures
        sample_path(dir, key, kind, a) != sample_path(dir, key, kind, b),
{
    lemma_item_paths_differ(join(dir, key), FRAME_WIDTH as nat, Some(kind.ext()), a, b);
}

/// Chooses the keys of a dataset from the listing of its root: every
/// directory whose name is recognised, in the order of the listing, each
/// name once. Other entries are passed over.
pub fn detect(entries: &Vec<Entry>) -> (sub_dirs: Vec<(String, DataKind)>)
    ensures
        sub_dir_views(sub_dirs@) == detected(entry_views(entries@)),
{
    let ghost listing = entry_views(entries@);
    let mut sub_dirs: Vec<(String, DataKind)> = Vec::new();
    let mut i: usize = 0;
    assert(sub_dir_views(sub_dirs@) =~= detected(listing.take(0)));
    while i < entries.len()
        invariant
            i <= entries.len(),
            listing == entry_views(entries@),
            sub_dir_views(sub_dirs@) == detected(listing.take(i as int)),
        decreases entries.len() - i,
    {
        let entry = &entries[i];
        let ghost before = sub_dir_views(sub_dirs@);
        proof {
            assert(listing.take(i + 1).drop_last() =~= listing.take(i as int));
            assert(listing.take(i + 1).last() == (entry.name@, entry.is_dir));
        }
        if entry.is_dir {
            match DataKind::classify(entry.name.as_str()) {
                Some(kind) => {
                    if position(&sub_dirs, entry.name.as_str()).is_none() {
                        sub_dirs.push((entry.name.clone(), kind));
                        assert(sub_dir_views(sub_dirs@) =~= before.push((entry.name@, kind)));
                    }
                },
                None => {},
            }
        }
        i = i + 1;
    }
    assert(listing.take(i as int) =~= listing);
    sub_dirs
}

/// An object dataset as contracts see it.
pub ghost struct DatasetView {
    /// The dataset root.
    pub dir: Seq<char>,
    /// The number of frames.
    pub num_frames: nat,
    /// The keys with their kinds.
    pub sub_dirs: Seq<(Seq<char>, DataKind)>,
}

/// The index of an object dataset: its root, its keys and its number of
/// frames. No key occurs twice, and each has the kind of its name.
#[derive(Debug)]
pub struct ObjectDataset {
    dataset_dir: String,
    num_frames: usize,
    sub_dirs: Vec<(String, DataKind)>,
}

impl View for ObjectDataset {
    type V = DatasetView;

    closed spec fn view(&self) -> DatasetView {
        DatasetView {
            dir: self.dataset_dir@,
            num_frames: self.num_frames as nat,
            sub_dirs: sub_dir_views(self.sub_dirs@),
        }
    }
}

impl Clone for ObjectDataset {
    fn clone(&self) -> (copy: Self)
        ensures
            copy@ == self@,
    {
        proof {
            use_type_invariant(self);
        }
        let mut sub_dirs: Vec<(String, DataKind)> = Vec::new();
        let mut i: usize = 0;
        while i < self.sub_dirs.len()
            invariant
                i <= self.sub_dirs.len(),
                sub_dir_views(sub_dirs@) == sub_dir_views(self.sub_dirs@).take(i as int),
            decreases self.sub_dirs.len() - i,
        {
            let ghost copied = sub_dir_views(sub_dirs@);
            let name = self.sub_dirs[i].0.clone();
            let kind = self.sub_dirs[i].1;
            sub_dirs.push((name, kind));
            assert(sub_dir_views(sub_dirs@) =~= copied.push((name@, kind)));
            i = i + 1;
            assert(sub_dir_views(sub_dirs@) =~= sub_dir_views(self.sub_dirs@).take(i as int));
        }
        assert(sub_dir_views(self.sub_dirs@).take(i as int) =~= sub_dir_views(self.sub_dirs@));
        ObjectDataset {
            dataset_dir: self.dataset_dir.clone(),
            num_frames: self.num_frames,
            sub_dirs,
        }
    }
}

impl ObjectDataset {
    #[verifier::type_invariant]
    spec fn well_formed(&self) -> bool {
        &&& distinct_keys(sub_dir_views(self.sub_dirs@))
        &&& classified_by(classifier(), sub_dir_views(self.sub_dirs@))
    }

    /// Builds the index of the dataset at `dir` from the listing of `dir`
    /// and a predicate that tells whether a path exists.
    ///
    /// The keys are those that `detect` chooses. The number of frames is
    /// probed under the first key, and is zero where there is no key. Where
    /// the predicate finds exactly the first `n` entries under that key, the
    /// number of frames is `n`.
    pub fn open<F: Fn(String) -> bool>(
        dir: &str,
        entries: &Vec<Entry>,
        present: &F,
    ) -> (dataset: Self)
        requires
            forall|p: String| call_requires(*present, (p,)),
        ensures
            dataset@.dir == dir@,
            dataset@.sub_dirs == detected(entry_views(entries@)),
            dataset@.sub_dirs.len() == 0 ==> dataset@.num_frames == 0,
            dataset@.sub_dirs.len() > 0 ==> counted(
                present,
                join(dir@, dataset@.sub_dirs[0].0),
                FRAME_WIDTH as nat,
                Some(dataset@.sub_dirs[0].1.ext()),
                dataset@.num_frames,
            ),
            forall|n: nat|
                dataset@.sub_dirs.len() > 0 && n <= usize::MAX && holds_exactly(
                    present,
                    join(dir@, dataset@.sub_dirs[0].0),
                    FRAME_WIDTH as nat,
                    Some(dataset@.sub_dirs[0].1.ext()),
                    n,
                ) ==> dataset@.num_frames == n,
    {
        let sub_dirs = detect(entries);
        let num_frames = if sub_dirs.len() > 0 {
            let key_dir = join_path(dir, sub_dirs[0].0.as_str());
            probe_max_frames(key_dir.as_str(), FRAME_WIDTH, Some(sub_dirs[0].1.file_ext()), present)
        } else {
            0
        };
        proof {
            lemma_selected(classifier(), entry_views(entries@));
        }
        ObjectDataset { dataset_dir: String::from_str(dir), num_frames, sub_dirs }
    }

    /// The number of frames.
    pub fn num_frames(&self) -> (count: usize)
        ensures
            count == self@.num_frames,
    {
        self.num_frames
    }

    /// Every frame of the dataset, in order.
    pub fn frame_iter(&self) -> (frames: Vec<Frame<'_>>)
        ensures
            frames.len() == self@.num_frames,
            forall|i: int|
                0 <= i < frames.len() ==> (#[trigger] frames[i]).index() == i
                    && frames[i].dataset() == self,
    {
        let mut frames: Vec<Frame<'_>> = Vec::new();
        let mut frame_idx: usize = 0;
        while frame_idx < self.num_frames
            invariant
                frame_idx <= self.num_frames,
                frames.len() == frame_idx,
                forall|i: int|
                    0 <= i < frames.len() ==> (#[trigger] frames[i]).index() == i
                        && frames[i].dataset() == self,
            decreases self.num_frames - frame_idx,
        {
            frames.push(Frame { dataset: self, frame_idx });
            frame_idx = frame_idx + 1;
        }
        frames
    }

    /// The frame numbered `frame_idx`, if the dataset has that many frames.
    pub fn frame(&self, frame_idx: usize) -> (frame: Option<Frame<'_>>)
        ensures
            frame is Some <==> frame_idx < self@.num_frames,
            frame matches Some(f) ==> f.index() == frame_idx && f.dataset() == self,
    {
        if frame_idx >= self.num_frames {
            return None;
        }
        Some(Frame { dataset: self, frame_idx })
    }

    /// The key called `key`, if the dataset has it.
    pub fn key(&self, key: &str) -> (entry: Option<KeyEntry<'_>>)
        ensures
            entry is Some <==> has_key(self@.sub_dirs, key@),
            entry matches Some(e) ==> e.dataset() == self && e.name() == key@ && Some(e.kind())
                == DataKind::of_name(key@),
    {
        proof {
            use_type_invariant(self);
        }
        match position(&self.sub_dirs, key) {
            Some(i) => {
                let kind = self.sub_dirs[i].1;
                assert(sub_dir_views(self.sub_dirs@)[i as int].0 == key@);
                Some(KeyEntry { dataset: self, key: String::from_str(key), kind })
            },
            None => None,
        }
    }

    /// The keys of the dataset with their kinds. No key occurs twice, and
    /// each has the kind of its name.
    pub fn keys(&self) -> (keys: Vec<(&str, DataKind)>)
        ensures
            distinct_keys(self@.sub_dirs),
            classified_by(classifier(), self@.sub_dirs),
            keys.len() == self@.sub_dirs.len(),
            forall|i: int|
                0 <= i < keys.len() ==> (#[trigger] keys[i]).0@ == self@.sub_dirs[i].0 && keys[i].1
                    == self@.sub_dirs[i].1,
    {
        proof {
            use_type_invariant(self);
        }
        let mut keys: Vec<(&str, DataKind)> = Vec::new();
        let mut i: usize = 0;
        while i < self.sub_dirs.len()
            invariant
                i <= self.sub_dirs.len(),
                keys.len() == i,
                forall|j: int|
                    0 <= j < keys.len() ==> (#[trigger] keys[j]).0@ == self@.sub_dirs[j].0
                        && keys[j].1 == self@.sub_dirs[j].1,
            decreases self.sub_dirs.len() - i,
        {
            keys.push((self.sub_dirs[i].0.as_str(), self.sub_dirs[i].1));
            i = i + 1;
        }
        keys
    }
}

/// One frame of an object dataset.
#[derive(Debug)]
pub struct Frame<'a> {
    dataset: &'a ObjectDataset,
    frame_idx: usize,
}

impl<'a> Clone for Frame<'a> {
    fn clone(&self) -> (copy: Self)
        ensures
            copy.dataset() == self.dataset(),
            copy.index() == self.index(),
    {
        proof {
            use_type_invariant(self);
        }
        Frame { dataset: self.dataset, frame_idx: self.frame_idx }
    }
}

impl<'a> Frame<'a> {
    #[verifier::type_invariant]
    spec fn well_formed(&self) -> bool {
        self.frame_idx < self.dataset@.num_frames
    }

    /// The dataset that the frame belongs to.
    pub closed spec fn dataset(&self) -> &ObjectDataset {
        self.dataset
    }

    /// The number of the frame.
    pub closed spec fn index(&self) -> nat {
        self.frame_idx as nat
    }

    /// The sample that `key` holds for this frame, if the dataset has the
    /// key. The file is not looked at.
    pub fn key(&self, key: &str) -> (sample: Option<Sample>)
        ensures
            sample is Some <==> has_key(self.dataset()@.sub_dirs, key@),
            sample matches Some(s) ==> Some(s@.kind) == DataKind::of_name(key@) && s@.path
                == sample_path(self.dataset()@.dir, key@, s@.kind, self.index()),
    {
        proof {
            use_type_invariant(self.dataset);
        }
        match position(&self.dataset.sub_dirs, key) {
            Some(i) => {
                let kind = self.dataset.sub_dirs[i].1;
                assert(sub_dir_views(self.dataset.sub_dirs@)[i as int].0 == key@);
                let path = build_path(self.dataset.dataset_dir.as_str(), key, kind, self.frame_idx);
                Some(Sample { kind, path })
            },
            None => None,
        }
    }

    /// The samples of this frame, one for each key of the dataset, in the
    /// order of the keys.
    pub fn sample_iter(&self) -> (samples: Vec<Sample>)
        ensures
            samples.len() == self.dataset()@.sub_dirs.len(),
            forall|i: int|
                0 <= i < samples.len() ==> (#[trigger] samples[i])@.kind
                    == self.dataset()@.sub_dirs[i].1 && samples[i]@.path == sample_path(
                    self.dataset()@.dir,
                    self.dataset()@.sub_dirs[i].0,
                    self.dataset()@.sub_dirs[i].1,
                    self.index(),
                ),
    {
        let mut samples: Vec<Sample> = Vec::new();
        let mut i: usize = 0;
        while i < self.dataset.sub_dirs.len()
            invariant
                i <= self.dataset.sub_dirs.len(),
                samples.len() == i,
                forall|j: int|
                    0 <= j < samples.len() ==> (#[trigger] samples[j])@.kind
                        == self.dataset()@.sub_dirs[j].1 && samples[j]@.path == sample_path(
                        self.dataset()@.dir,
                        self.dataset()@.sub_dirs[j].0,
                        self.dataset()@.sub_dirs[j].1,
                        self.index(),
                    ),
            decreases self.dataset.sub_dirs.len() - i,
        {
            let kind = self.dataset.sub_dirs[i].1;
            let path = build_path(
                self.dataset.dataset_dir.as_str(),
                self.dataset.sub_dirs[i].0.as_str(),
                kind,
                self.frame_idx,
            );
            samples.push(Sample { kind, path });
            i = i + 1;
        }
        samples
    }
}

/// One key of an object dataset.
#[derive(Debug)]
pub struct KeyEntry<'a> {
    dataset: &'a ObjectDataset,
    key: String,
    kind: DataKind,
}

impl<'a> Clone for KeyEntry<'a> {
    fn clone(&self) -> (copy: Self)
        ensures
            copy.dataset() == self.dataset(),
            copy.name() == self.name(),
            copy.kind() == self.kind(),
    {
        proof {
            use_type_invariant(self);
        }
        KeyEntry { dataset: self.dataset, key: self.key.clone(), kind: self.kind }
    }
}

impl<'a> KeyEntry<'a> {
    #[verifier::type_invariant]
    spec fn well_formed(&self) -> bool {
        &&& has_key(self.dataset@.sub_dirs, self.key@)
        &&& DataKind::of_name(self.key@) == Some(self.kind)
    }

    /// The dataset that the key belongs to.
    pub closed spec fn dataset(&self) -> &ObjectDataset {
        self.dataset
    }

    /// The name of the key.
    pub closed spec fn name(&self) -> Seq<char> {
        self.key@
    }

    /// The kind of the key.
    pub closed spec fn kind(&self) -> DataKind {
        self.kind
    }

    /// The sample that this key holds for frame `frame_idx`, if the dataset
    /// has that many frames. The file is not looked at.
    pub fn frame(&self, frame_idx: usize) -> (sample: Option<Sample>)
        ensures
            sample is Some <==> frame_idx < self.dataset()@.num_frames,
            sample matches Some(s) ==> s@.kind == self.kind() && s@.path == sample_path(
                self.dataset()@.dir,
                self.name(),
                self.kind(),
                frame_idx as nat,
            ),
    {
        if frame_idx >= self.dataset.num_frames {
            return None;
        }
        let path = build_path(
            self.dataset.dataset_dir.as_str(),
            self.key.as_str(),
            self.kind,
            frame_idx,
        );
        Some(Sample { kind: self.kind, path })
    }
}

fn build_path(dir: &str, key: &str, kind: DataKind, frame_idx: usize) -> (path: String)
    ensures
        path@ == sample_path(dir@, key@, kind, frame_idx as nat),
{
    let key_dir = join_path(dir, key);
    let name = create_file_name(frame_idx, FRAME_WIDTH, Some(kind.file_ext()));
    join_path(key_dir.as_str(), name.as_str())
}

/// A sample as contracts see it.
pub ghost struct SampleView {
    /// What the sample holds.
    pub kind: DataKind,
    /// Where the sample lies.
    pub path: Seq<char>,
}

/// The address of one file of the dataset: its kind and its path.
#[derive(Debug, Clone)]
pub struct Sample {
    kind: DataKind,
    path: String,
}

impl View for Sample {
    type V = SampleView;

    closed spec fn view(&self) -> SampleView {
        SampleView { kind: self.kind, path: self.path@ }
    }
}

impl Sample {
    /// What the sample holds.
    pub fn kind(&self) -> (kind: DataKind)
        ensures
            kind == self@.kind,
    {
        self.kind
    }

    /// Where the sample lies.
    pub fn path(&self) -> (path: &str)
        ensures
            path@ == self@.path,
    {
        self.path.as_str()
    }
}

} // verus!
