//! The tracking layout: one entry per frame in every subdirectory, named by
//! the frame number in four digits. Under an image or Velodyne key the entry
//! is a directory that holds a sequence of files of its own, named in six
//! digits.

use crate::dataset::schema::{
    classified_by, distinct_keys, entry_views, has_key, lemma_selected, position, selected,
    sub_dir_views, Entry,
};
use crate::dataset::{counted, holds_exactly, probe_max_frames};
use crate::naming::{
    create_file_name, ext_view, file_name, item_path, join, join_path, lemma_item_paths_differ,
};
use crate::text::{has_prefix, starts_with};
use vstd::prelude::*;
use vstd::string::*;

verus! {

/// The number of digits in the name of a frame's entry.
pub const FRAME_WIDTH: usize = 4;

/// The number of digits in the name of a file of a sequence.
pub const SEQ_WIDTH: usize = 6;

/// What a subdirectory of a tracking dataset holds.
#[derive(Debug, Clone, Copy, PartialEq, Eq, Hash, Structural)]
pub enum DataKind {
    ImageSeq,
    VelodyneSeq,
    Calib,
    Label,
    Odomentry,
}

impl DataKind {
    /// The extension of the files of this kind; none for a kind whose
    /// frames are directories.
    pub open spec fn ext(self) -> Option<Seq<char>> {
        match self {
            DataKind::ImageSeq => None,
            DataKind::VelodyneSeq => None,
            DataKind::Calib => Some("txt"@),
            DataKind::Label => Some("txt"@),
            DataKind::Odomentry => Some("txt"@),
        }
    }

    /// The frames of this kind are sequences.
    pub open spec fn is_seq(self) -> bool {
        self == DataKind::ImageSeq || self == DataKind::VelodyneSeq
    }

    /// The extension of the files in a sequence of this kind.
    pub open spec fn seq_ext(self) -> Seq<char> {
        if self == DataKind::ImageSeq {
            "png"@
        } else {
            "bin"@
        }
    }

    /// The kind of the subdirectory called `name`, decided by the first of
    /// the prefixes `image`, `velodyne`, `label`, `calib`, `oxts` that the
    /// name begins with; none where it begins with none of them.
    pub open spec fn of_name(name: Seq<char>) -> Option<DataKind> {
        if has_prefix(name, "image"@) {
            Some(DataKind::ImageSeq)
        } else if has_prefix(name, "velodyne"@) {
            Some(DataKind::VelodyneSeq)
        } else if has_prefix(name, "label"@) {
            Some(DataKind::Label)
        } else if has_prefix(name, "calib"@) {
            Some(DataKind::Calib)
        } else if has_prefix(name, "oxts"@) {
            Some(DataKind::Odomentry)
        } else {
            None
        }
    }

    /// The extension of the files of this kind; none for a kind whose
    /// frames are directories.
    pub fn file_ext(&self) -> (ext: Option<&'static str>)
        ensures
            ext_view(ext) == self.ext(),
    {
        match self {
            DataKind::ImageSeq => None,
            DataKind::VelodyneSeq => None,
            DataKind::Calib => Some("txt"),
            DataKind::Label => Some("txt"),
            DataKind::Odomentry => Some("txt"),
        }
    }

    /// The kind of the subdirectory called `name`, if its name is recognised.
    pub fn classify(name: &str) -> (kind: Option<DataKind>)
        ensures
            kind == DataKind::of_name(name@),
    {
        if starts_with(name, "image") {
            Some(DataKind::ImageSeq)
        } else if starts_with(name, "velodyne") {
            Some(DataKind::VelodyneSeq)
        } else if starts_with(name, "label") {
            Some(DataKind::Label)
        } else if starts_with(name, "calib") {
            Some(DataKind::Calib)
        } else if starts_with(name, "oxts") {
            Some(DataKind::Odomentry)
        } else {
            None
        }
    }
}

/// `DataKind::of_name` as a function value.
pub open spec fn classifier() -> spec_fn(Seq<char>) -> Option<DataKind> {
    |name: Seq<char>| DataKind::of_name(name)
}

/// The keys that a listing of the dataset root gives, with their kinds.
pub open spec fn detected(entries: Seq<(Seq<char>, bool)>) -> Seq<(Seq<char>, DataKind)> {
    selected(classifier(), entries)
}

/// The path of the file or directory that holds frame `frame_idx` under
/// `key`.
pub open spec fn sample_path(
    dir: Seq<char>,
    key: Seq<char>,
    kind: DataKind,
    frame_idx: nat,
) -> Seq<char> {
    join(join(dir, key), file_name(frame_idx, FRAME_WIDTH as nat, kind.ext()))
}

/// Under one key, different frames lie at different paths.
pub proof fn lemma_frame_paths_differ(
    dir: Seq<char>,
    key: Seq<char>,
    kind: DataKind,
    a: nat,
    b: nat,
)
    requires
        a != b,
    ensures
        sample_path(dir, key, kind, a) != sample_path(dir, key, kind, b),
{
    lemma_item_paths_differ(join(dir, key), FRAME_WIDTH as nat, kind.ext(), a, b);
}

/// The directory that holds the sequence of frame `frame_idx` under `key`.
pub open spec fn seq_dir(dir: Seq<char>, key: Seq<char>, frame_idx: nat) -> Seq<char> {
    join(join(dir, key), file_name(frame_idx, FRAME_WIDTH as nat, None))
}

/// Some key holds sequences.
pub open spec fn has_seq_key(sub_dirs: Seq<(Seq<char>, DataKind)>) -> bool {
    exists|i: int| 0 <= i < sub_dirs.len() && (#[trigger] sub_dirs[i]).1.is_seq()
}

/// Key `i` is the first key that holds sequences.
pub open spec fn is_first_seq_key(sub_dirs: Seq<(Seq<char>, DataKind)>, i: int) -> bool {
    &&& 0 <= i < sub_dirs.len()
    &&& sub_dirs[i].1.is_seq()
    &&& forall|j: int| 0 <= j < i ==> !(#[trigger] sub_dirs[j]).1.is_seq()
}

/// Chooses the keys of a dataset from the listing of its root: every
/// directory whose name is recognised, in the order of the listing, each
/// name once. Other entries are passed over.
pub fn detect(entries: &Vec<Entry>) -> (sub_dirs: Vec<(String, DataKind)>)
    ensures
        sub_dir_views(sub_dirs@) == detected(entry_views(entries@)),
{
    let ghost listing = entry_views(entries@);
    let mut sub_dirs: Vec<(String, DataKind)> = Vec::new();
    let mut i: usize = 0;
    assert(sub_dir_views(sub_dirs@) =~= detected(listing.take(0)));
    while i < entries.len()
        invariant
            i <= entries.len(),
            listing == entry_views(entries@),
            sub_dir_views(sub_dirs@) == detected(listing.take(i as int)),
        decreases entries.len() - i,
    {
        let entry = &entries[i];
        let ghost before = sub_dir_views(sub_dirs@);
        proof {
            assert(listing.take(i + 1).drop_last() =~= listing.take(i as int));
            assert(listing.take(i + 1).last() == (entry.name@, entry.is_dir));
        }
        if entry.is_dir {
            match DataKind::classify(entry.name.as_str()) {
                Some(kind) => {
                    if position(&sub_dirs, entry.name.as_str()).is_none() {
                        sub_dirs.push((entry.name.clone(), kind));
                        assert(sub_dir_views(sub_dirs@) =~= before.push((entry.name@, kind)));
                    }
                },
                None => {},
            }
        }
        i = i + 1;
    }
    assert(listing.take(i as int) =~= listing);
    sub_dirs
}

/// A tracking dataset as contracts see it.
pub ghost struct DatasetView {
    /// The dataset root.
    pub dir: Seq<char>,
    /// The number of frames.
    pub num_frames: nat,
    /// The keys with their kinds.
    pub sub_dirs: Seq<(Seq<char>, DataKind)>,
}

/// The index of a tracking dataset: its root, its keys and its number of
/// frames. No key occurs twice, and each has the kind of its name.
#[derive(Debug)]
pub struct TrackingDataset {
    dataset_dir: String,
    num_frames: usize,
    sub_dirs: Vec<(String, DataKind)>,
}

impl View for TrackingDataset {
    type V = DatasetView;

    closed spec fn view(&self) -> DatasetView {
        DatasetView {
            dir: self.dataset_dir@,
            num_frames: self.num_frames as nat,
            sub_dirs: sub_dir_views(self.sub_dirs@),
        }
    }
}

impl Clone for TrackingDataset {
    fn clone(&self) -> (copy: Self)
        ensures
            copy@ == self@,
    {
        proof {
            use_type_invariant(self);
        }
        let mut sub_dirs: Vec<(String, DataKind)> = Vec::new();
        let mut i: usize = 0;
        while i < self.sub_dirs.len()
            invariant
                i <= self.sub_dirs.len(),
                sub_dir_views(sub_dirs@) == sub_dir_views(self.sub_dirs@).take(i as int),
            decreases self.sub_dirs.len() - i,
        {
            let ghost copied = sub_dir_views(sub_dirs@);
            let name = self.sub_dirs[i].0.clone();
            let kind = self.sub_dirs[i].1;
            sub_dirs.push((name, kind));
            assert(sub_dir_views(sub_dirs@) =~= copied.push((name@, kind)));
            i = i + 1;
            assert(sub_dir_views(sub_dirs@) =~= sub_dir_views(self.sub_dirs@).take(i as int));
        }
        assert(sub_dir_views(self.sub_dirs@).take(i as int) =~= sub_dir_views(self.sub_dirs@));
        TrackingDataset {
            dataset_dir: self.dataset_dir.clone(),
            num_frames: self.num_frames,
            sub_dirs,
        }
    }
}

impl TrackingDataset {
    #[verifier::type_invariant]
    spec fn well_formed(&self) -> bool {
        &&& distinct_keys(sub_dir_views(self.sub_dirs@))
        &&& classified_by(classifier(), sub_dir_views(self.sub_dirs@))
    }

    /// Builds the index of the dataset at `dir` from the listing of `dir`
    /// and a predicate that tells whether a path exists.
    ///
    /// The keys are those that `detect` chooses. The number of frames is
    /// probed under the first key, and is zero where there is no key. Where
    /// the predicate finds exactly the first `n` entries under that key, the
    /// number of frames is `n`.
    pub fn open<F: Fn(String) -> bool>(
        dir: &str,
        entries: &Vec<Entry>,
        present: &F,
    ) -> (dataset: Self)
        requires
            forall|p: String| call_requires(*present, (p,)),
        ensures
            dataset@.dir == dir@,
            dataset@.sub_dirs == detected(entry_views(entries@)),
            dataset@.sub_dirs.len() == 0 ==> dataset@.num_frames == 0,
            dataset@.sub_dirs.len() > 0 ==> counted(
                present,
                join(dir@, dataset@.sub_dirs[0].0),
                FRAME_WIDTH as nat,
                dataset@.sub_dirs[0].1.ext(),
                dataset@.num_frames,
            ),
            forall|n: nat|
                dataset@.sub_dirs.len() > 0 && n <= usize::MAX && holds_exactly(
                    present,
                    join(dir@, dataset@.sub_dirs[0].0),
                    FRAME_WIDTH as nat,
                    dataset@.sub_dirs[0].1.ext(),
                    n,
                ) ==> dataset@.num_frames == n,
    {
        let sub_dirs = detect(entries);
        let num_frames = if sub_dirs.len() > 0 {
            let key_dir = join_path(dir, sub_dirs[0].0.as_str());
            probe_max_frames(key_dir.as_str(), FRAME_WIDTH, sub_dirs[0].1.file_ext(), present)
        } else {
            0
        };
        proof {
            lemma_selected(classifier(), entry_views(entries@));
        }
        TrackingDataset { dataset_dir: String::from_str(dir), num_frames, sub_dirs }
    }

    /// The number of frames.
    pub fn num_frames(&self) -> (count: usize)
        ensures
            count == self@.num_frames,
    {
        self.num_frames
    }

    /// Every frame of the dataset, in order.
    pub fn frame_iter(&self) -> (frames: Vec<Frame<'_>>)
        ensures
            frames.len() == self@.num_frames,
            forall|i: int|
                0 <= i < frames.len() ==> (#[trigger] frames[i]).index() == i
                    && frames[i].dataset() == self,
    {
        let mut frames: Vec<Frame<'_>> = Vec::new();
        let mut frame_idx: usize = 0;
        while frame_idx < self.num_frames
            invariant
                frame_idx <= self.num_frames,
                frames.len() == frame_idx,
                forall|i: int|
                    0 <= i < frames.len() ==> (#[trigger] frames[i]).index() == i
                        && frames[i].dataset() == self,
            decreases self.num_frames - frame_idx,
        {
            frames.push(Frame { dataset: self, frame_idx });
            frame_idx = frame_idx + 1;
        }
        frames
    }

    /// The frame numbered `frame_idx`, if the dataset has that many frames.
    pub fn frame(&self, frame_idx: usize) -> (frame: Option<Frame<'_>>)
        ensures
            frame is Some <==> frame_idx < self@.num_frames,
            frame matches Some(f) ==> f.index() == frame_idx && f.dataset() == self,
    {
        if frame_idx >= self.num_frames {
            return None;
        }
        Some(Frame { dataset: self, frame_idx })
    }

    /// The key called `key`, if the dataset has it.
    pub fn key(&self, key: &str) -> (entry: Option<KeyEntry<'_>>)
        ensures
            entry is Some <==> has_key(self@.sub_dirs, key@),
            entry matches Some(e) ==> e.dataset() == self && e.name() == key@ && Some(e.kind())
                == DataKind::of_name(key@),
    {
        proof {
            use_type_invariant(self);
        }
        match position(&self.sub_dirs, key) {
            Some(i) => {
                let kind = self.sub_dirs[i].1;
                assert(sub_dir_views(self.sub_dirs@)[i as int].0 == key@);
                Some(KeyEntry { dataset: self, key: String::from_str(key), kind })
            },
            None => None,
        }
    }

    /// The keys of the dataset with their kinds. No key occurs twice, and
    /// each has the kind of its name.
    pub fn keys(&self) -> (keys: Vec<(&str, DataKind)>)
        ensures
            distinct_keys(self@.sub_dirs),
            classified_by(classifier(), self@.sub_dirs),
            keys.len() == self@.sub_dirs.len(),
            forall|i: int|
                0 <= i < keys.len() ==> (#[trigger] keys[i]).0@ == self@.sub_dirs[i].0 && keys[i].1
                    == self@.sub_dirs[i].1,
    {
        proof {
            use_type_invariant(self);
        }
        let mut keys: Vec<(&str, DataKind)> = Vec::new();
        let mut i: usize = 0;
        while i < self.sub_dirs.len()
            invariant
                i <= self.sub_dirs.len(),
                keys.len() == i,
                forall|j: int|
                    0 <= j < keys.len() ==> (#[trigger] keys[j]).0@ == self@.sub_dirs[j].0
                        && keys[j].1 == self@.sub_dirs[j].1,
            decreases self.sub_dirs.len() - i,
        {
            keys.push((self.sub_dirs[i].0.as_str(), self.sub_dirs[i].1));
            i = i + 1;
        }
        keys
    }
}

/// One frame of a tracking dataset.
#[derive(Debug)]
pub struct Frame<'a> {
    dataset: &'a TrackingDataset,
    frame_idx: usize,
}

impl<'a> Clone for Frame<'a> {
    fn clone(&self) -> (copy: Self)
        ensures
            copy.dataset() == self.dataset(),
            copy.index() == self.index(),
    {
        proof {
            use_type_invariant(self);
        }
        Frame { dataset: self.dataset, frame_idx: self.frame_idx }
    }
}

impl<'a> Frame<'a> {
    #[verifier::type_invariant]
    spec fn well_formed(&self) -> bool {
        self.frame_idx < self.dataset@.num_frames
    }

    /// The dataset that the frame belongs to.
    pub closed spec fn dataset(&self) -> &TrackingDataset {
        self.dataset
    }

    /// The number of the frame.
    pub closed spec fn index(&self) -> nat {
        self.frame_idx as nat
    }

    /// The sample that `key` holds for this frame, if the dataset has the
    /// key. The file is not looked at.
    pub fn key(&self, key: &str) -> (sample: Option<Sample>)
        ensures
            sample is Some <==> has_key(self.dataset()@.sub_dirs, key@),
            sample matches Some(s) ==> Some(s@.kind) == DataKind::of_name(key@) && s@.path
                == sample_path(self.dataset()@.dir, key@, s@.kind, self.index()),
    {
        proof {
            use_type_invariant(self.dataset);
        }
        match position(&self.dataset.sub_dirs, key) {
            Some(i) => {
                let kind = self.dataset.sub_dirs[i].1;
                assert(sub_dir_views(self.dataset.sub_dirs@)[i as int].0 == key@);
                let path = build_path(self.dataset.dataset_dir.as_str(), key, kind, self.frame_idx);
                Some(Sample { kind, path })
            },
            None => None,
        }
    }

    /// The samples of this frame, one for each key of the dataset, in the
    /// order of the keys.
    pub fn sample_iter(&self) -> (samples: Vec<Sample>)
        ensures
            samples.len() == self.dataset()@.sub_dirs.len(),
            forall|i: int|
                0 <= i < samples.len() ==> (#[trigger] samples[i])@.kind
                    == self.dataset()@.sub_dirs[i].1 && samples[i]@.path == sample_path(
                    self.dataset()@.dir,
                    self.dataset()@.sub_dirs[i].0,
                    self.dataset()@.sub_dirs[i].1,
                    self.index(),
                ),
    {
        let mut samples: Vec<Sample> = Vec::new();
        let mut i: usize = 0;
        while i < self.dataset.sub_dirs.len()
            invariant
                i <= self.dataset.sub_dirs.len(),
                samples.len() == i,
                forall|j: int|
                    0 <= j < samples.len() ==> (#[trigger] samples[j])@.kind
                        == self.dataset()@.sub_dirs[j].1 && samples[j]@.path == sample_path(
                        self.dataset()@.dir,
                        self.dataset()@.sub_dirs[j].0,
                        self.dataset()@.sub_dirs[j].1,
                        self.index(),
                    ),
            decreases self.dataset.sub_dirs.len() - i,
        {
            let kind = self.dataset.sub_dirs[i].1;
            let path = build_path(
                self.dataset.dataset_dir.as_str(),
                self.dataset.sub_dirs[i].0.as_str(),
                kind,
                self.frame_idx,
            );
            samples.push(Sample { kind, path });
            i = i + 1;
        }
        samples
    }

    /// The length of this frame's sequence under the first key that holds
    /// sequences, probed with `present`; none where the dataset has no such
    /// key.
    pub fn seq_len<F: Fn(String) -> bool>(&self, present: &F) -> (len: Option<usize>)
        requires
            forall|p: String| call_requires(*present, (p,)),
        ensures
            len is Some <==> has_seq_key(self.dataset()@.sub_dirs),
            len matches Some(n) ==> exists|i: int|
                #[trigger] is_first_seq_key(self.dataset()@.sub_dirs, i) && counted(
                    present,
                    seq_dir(self.dataset()@.dir, self.dataset()@.sub_dirs[i].0, self.index()),
                    SEQ_WIDTH as nat,
                    Some(self.dataset()@.sub_dirs[i].1.seq_ext()),
                    n as nat,
                ),
    {
        let ghost views = self.dataset()@.sub_dirs;
        let mut i: usize = 0;
        while i < self.dataset.sub_dirs.len()
            invariant
                forall|p: String| call_requires(*present, (p,)),
                i <= self.dataset.sub_dirs.len(),
                views == sub_dir_views(self.dataset.sub_dirs@),
                forall|j: int| 0 <= j < i ==> !(#[trigger] views[j]).1.is_seq(),
            decreases self.dataset.sub_dirs.len() - i,
        {
            let kind = self.dataset.sub_dirs[i].1;
            let ext = match kind {
                DataKind::ImageSeq => Some("png"),
                DataKind::VelodyneSeq => Some("bin"),
                _ => None,
            };
            if ext.is_some() {
                assert(views[i as int].1.is_seq());
                let key_dir = join_path(
                    self.dataset.dataset_dir.as_str(),
                    self.dataset.sub_dirs[i].0.as_str(),
                );
                let name = create_file_name(self.frame_idx, FRAME_WIDTH, None);
                let dir = join_path(key_dir.as_str(), name.as_str());
                let n = probe_max_frames(dir.as_str(), SEQ_WIDTH, ext, present);
                assert(is_first_seq_key(self.dataset()@.sub_dirs, i as int) && counted(
                    present,
                    seq_dir(
                        self.dataset()@.dir,
                        self.dataset()@.sub_dirs[i as int].0,
                        self.index(),
                    ),
                    SEQ_WIDTH as nat,
                    Some(self.dataset()@.sub_dirs[i as int].1.seq_ext()),
                    n as nat,
                ));
                return Some(n);
            }
            i = i + 1;
        }
        None
    }
}

/// One key of a tracking dataset.
#[derive(Debug)]
pub struct KeyEntry<'a> {
    dataset: &'a TrackingDataset,
    key: String,
    kind: DataKind,
}

impl<'a> Clone for KeyEntry<'a> {
    fn clone(&self) -> (copy: Self)
        ensures
            copy.dataset() == self.dataset(),
            copy.name() == self.name(),
            copy.kind() == self.kind(),
    {
        proof {
            use_type_invariant(self);
        }
        KeyEntry { dataset: self.dataset, key: self.key.clone(), kind: self.kind }
    }
}

impl<'a> KeyEntry<'a> {
    #[verifier::type_invariant]
    spec fn well_formed(&self) -> bool {
        &&& has_key(self.dataset@.sub_dirs, self.key@)
        &&& DataKind::of_name(self.key@) == Some(self.kind)
    }

    /// The dataset that the key belongs to.
    pub closed spec fn dataset(&self) -> &TrackingDataset {
        self.dataset
    }

    /// The name of the key.
    pub closed spec fn name(&self) -> Seq<char> {
        self.key@
    }

    /// The kind of the key.
    pub closed spec fn kind(&self) -> DataKind {
        self.kind
    }

    /// The sample that this key holds for frame `frame_idx`, if the dataset
    /// has that many frames. The file is not looked at.
    pub fn frame(&self, frame_idx: usize) -> (sample: Option<Sample>)
        ensures
            sample is Some <==> frame_idx < self.dataset()@.num_frames,
            sample matches Some(s) ==> s@.kind == self.kind() && s@.path == sample_path(
                self.dataset()@.dir,
                self.name(),
                self.kind(),
                frame_idx as nat,
            ),
    {
        if frame_idx >= self.dataset.num_frames {
            return None;
        }
        let path = build_path(
            self.dataset.dataset_dir.as_str(),
            self.key.as_str(),
            self.kind,
            frame_idx,
        );
        Some(Sample { kind: self.kind, path })
    }
}

fn build_path(dir: &str, key: &str, kind: DataKind, frame_idx: usize) -> (path: String)
    ensures
        path@ == sample_path(dir@, key@, kind, frame_idx as nat),
{
    let key_dir = join_path(dir, key);
    let name = create_file_name(frame_idx, FRAME_WIDTH, kind.file_ext());
    join_path(key_dir.as_str(), name.as_str())
}

/// A sample as contracts see it.
pub ghost struct SampleView {
    /// What the sample holds.
    pub kind: DataKind,
    /// Where the sample lies.
    pub path: Seq<char>,
}

/// The address of one entry of the dataset: its kind and its path.
#[derive(Debug, Clone)]
pub struct Sample {
    kind: DataKind,
    path: String,
}

impl View for Sample {
    type V = SampleView;

    closed spec fn view(&self) -> SampleView {
        SampleView { kind: self.kind, path: self.path@ }
    }
}

impl Sample {
    /// What the sample holds.
    pub fn kind(&self) -> (kind: DataKind)
        ensures
            kind == self@.kind,
    {
        self.kind
    }

    /// Where the sample lies.
    pub fn path(&self) -> (path: &str)
        ensures
            path@ == self@.path,
    {
        self.path.as_str()
    }

    /// Opens the sequence that the sample names, probing its length with
    /// `present`: images under an image key, point clouds under a Velodyne
    /// key. A sample of another kind names a file, and nothing is probed.
    pub fn sequence<F: Fn(String) -> bool>(&self, present: &F) -> (opened: Option<Sequence>)
        requires
            forall|p: String| call_requires(*present, (p,)),
        ensures
            opened is Some <==> self@.kind.is_seq(),
            opened matches Some(Sequence::Image(seq)) ==> self@.kind == DataKind::ImageSeq
                && seq@.dir == self@.path && counted(
                present,
                self@.path,
                SEQ_WIDTH as nat,
                Some("png"@),
                seq@.seq_len,
            ),
            opened matches Some(Sequence::Velodyne(seq)) ==> self@.kind == DataKind::VelodyneSeq
                && seq@.dir == self@.path && counted(
                present,
                self@.path,
                SEQ_WIDTH as nat,
                Some("bin"@),
                seq@.seq_len,
            ),
    {
        match self.kind {
            DataKind::ImageSeq => Some(
                Sequence::Image(ImageSeq::open(self.path.as_str(), present)),
            ),
            DataKind::VelodyneSeq => Some(
                Sequence::Velodyne(VelodyneSeq::open(self.path.as_str(), present)),
            ),
            _ => None,
        }
    }
}

/// The sequence of one frame under one key.
#[derive(Debug, Clone)]
pub enum Sequence {
    Image(ImageSeq),
    Velodyne(VelodyneSeq),
}

/// The images of one frame: the directory that holds them and their
/// number, as probed when the sequence was opened.
#[derive(Debug, Clone)]
pub struct ImageSeq {
    dir: String,
    seq_len: usize,
}

/// The point clouds of one frame: the directory that holds them and their
/// number, as probed when the sequence was opened.
#[derive(Debug, Clone)]
pub struct VelodyneSeq {
    dir: String,
    seq_len: usize,
}

/// A sequence as contracts see it.
pub ghost struct SeqView {
    /// The directory of the sequence.
    pub dir: Seq<char>,
    /// The number of its items.
    pub seq_len: nat,
}

impl View for ImageSeq {
    type V = SeqView;

    closed spec fn view(&self) -> SeqView {
        SeqView { dir: self.dir@, seq_len: self.seq_len as nat }
    }
}

impl View for VelodyneSeq {
    type V = SeqView;

    closed spec fn view(&self) -> SeqView {
        SeqView { dir: self.dir@, seq_len: self.seq_len as nat }
    }
}

fn seq_paths(dir: &str, seq_len: usize, ext: &str) -> (paths: Vec<String>)
    ensures
        paths.len() == seq_len,
        forall|i: int|
            0 <= i < paths.len() ==> (#[trigger] paths[i])@ == item_path(
                dir@,
                SEQ_WIDTH as nat,
                Some(ext@),
                i as nat,
            ),
{
    let mut paths: Vec<String> = Vec::new();
    let mut seq_idx: usize = 0;
    while seq_idx < seq_len
        invariant
            seq_idx <= seq_len,
            paths.len() == seq_idx,
            forall|i: int|
                0 <= i < paths.len() ==> (#[trigger] paths[i])@ == item_path(
                    dir@,
                    SEQ_WIDTH as nat,
                    Some(ext@),
                    i as nat,
                ),
        decreases seq_len - seq_idx,
    {
        let name = create_file_name(seq_idx, SEQ_WIDTH, Some(ext));
        paths.push(join_path(dir, name.as_str()));
        seq_idx = seq_idx + 1;
    }
    paths
}

impl ImageSeq {
    /// Opens the sequence in the directory `dir`: its length is probed with
    /// `present` and kept.
    pub fn open<F: Fn(String) -> bool>(dir: &str, present: &F) -> (seq: Self)
        requires
            forall|p: String| call_requires(*present, (p,)),
        ensures
            seq@.dir == dir@,
            counted(present, dir@, SEQ_WIDTH as nat, Some("png"@), seq@.seq_len),
    {
        let seq_len = probe_max_frames(dir, SEQ_WIDTH, Some("png"), present);
        ImageSeq { dir: String::from_str(dir), seq_len }
    }

    /// The path of image `seq_idx`, if the sequence is that long. The file
    /// is not looked at.
    pub fn get(&self, seq_idx: usize) -> (path: Option<String>)
        ensures
            path is Some <==> seq_idx < self@.seq_len,
            path matches Some(p) ==> p@ == item_path(
                self@.dir,
                SEQ_WIDTH as nat,
                Some("png"@),
                seq_idx as nat,
            ),
    {
        if seq_idx >= self.seq_len {
            return None;
        }
        let name = create_file_name(seq_idx, SEQ_WIDTH, Some("png"));
        Some(join_path(self.dir.as_str(), name.as_str()))
    }

    /// The paths of all images of the sequence, in order.
    pub fn image_iter(&self) -> (paths: Vec<String>)
        ensures
            paths.len() == self@.seq_len,
            forall|i: int|
                0 <= i < paths.len() ==> (#[trigger] paths[i])@ == item_path(
                    self@.dir,
                    SEQ_WIDTH as nat,
                    Some("png"@),
                    i as nat,
                ),
    {
        seq_paths(self.dir.as_str(), self.seq_len, "png")
    }

    /// The number of images.
    pub fn seq_len(&self) -> (len: usize)
        ensures
            len == self@.seq_len,
    {
        self.seq_len
    }
}

impl VelodyneSeq {
    /// Opens the sequence in the directory `dir`: its length is probed with
    /// `present` and kept.
    pub fn open<F: Fn(String) -> bool>(dir: &str, present: &F) -> (seq: Self)
        requires
            forall|p: String| call_requires(*present, (p,)),
        ensures
            seq@.dir == dir@,
            counted(present, dir@, SEQ_WIDTH as nat, Some("bin"@), seq@.seq_len),
    {
        let seq_len = probe_max_frames(dir, SEQ_WIDTH, Some("bin"), present);
        VelodyneSeq { dir: String::from_str(dir), seq_len }
    }

    /// The path of point cloud `seq_idx`, if the sequence is that long. The
    /// file is not looked at.
    pub fn get(&self, seq_idx: usize) -> (path: Option<String>)
        ensures
            path is Some <==> seq_idx < self@.seq_len,
            path matches Some(p) ==> p@ == item_path(
                self@.dir,
                SEQ_WIDTH as nat,
                Some("bin"@),
                seq_idx as nat,
            ),
    {
        if seq_idx >= self.seq_len {
            return None;
        }
        let name = create_file_name(seq_idx, SEQ_WIDTH, Some("bin"));
        Some(join_path(self.dir.as_str(), name.as_str()))
    }

    /// The paths of all point clouds of the sequence, in order.
    pub fn point_cloud_iter(&self) -> (paths: Vec<String>)
        ensures
            paths.len() == self@.seq_len,
            forall|i: int|
                0 <= i < paths.len() ==> (#[trigger] paths[i])@ == item_path(
                    self@.dir,
                    SEQ_WIDTH as nat,
                    Some("bin"@),
                    i as nat,
                ),
    {
        seq_paths(self.dir.as_str(), self.seq_len, "bin")
    }

    /// The number of point clouds.
    pub fn seq_len(&self) -> (len: usize)
        ensures
            len == self@.seq_len,
    {
        self.seq_len
    }
}

} // verus!
