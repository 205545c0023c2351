use kitti_dataset::dataset::object::{detect, DataKind, ObjectDataset};
use kitti_dataset::dataset::Entry;
use std::collections::HashSet;

fn dir(name: &str) -> Entry {
    Entry { name: name.to_string(), is_dir: true }
}

fn file(name: &str) -> Entry {
    Entry { name: name.to_string(), is_dir: false }
}

fn files_of(root: &str, keys: &[(&str, &str)], frames: usize) -> HashSet<String> {
    let mut files = HashSet::new();
    for (key, ext) in keys {
        for idx in 0..frames {
            files.insert(format!("{root}/{key}/{idx:06}.{ext}"));
        }
    }
    files
}

fn open_object(root: &str, entries: &[Entry], files: &HashSet<String>) -> ObjectDataset {
    ObjectDataset::open(root, &entries.to_vec(), &|path: String| files.contains(&path))
}

fn standard_entries() -> Vec<Entry> {
    vec![dir("image_2"), dir("velodyne"), dir("label_2"), dir("calib"), dir("readme")]
}

fn standard_files(frames: usize) -> HashSet<String> {
    files_of(
        "/kitti/training",
        &[("image_2", "png"), ("velodyne", "bin"), ("label_2", "txt"), ("calib", "txt")],
        frames,
    )
}

#[test]
fn detect_classifies_known_directories_and_ignores_others() {
    let sub_dirs = detect(&standard_entries());
    assert_eq!(
        sub_dirs,
        vec![
            ("image_2".to_string(), DataKind::Image),
            ("velodyne".to_string(), DataKind::Velodyne),
            ("label_2".to_string(), DataKind::Label),
            ("calib".to_string(), DataKind::Calib),
        ]
    );
}

#[test]
fn detect_skips_plain_files_and_repeated_names() {
    let entries = vec![
        file("image_2"),
        dir("velodyne_reduced"),
        file("notes.txt"),
        dir("velodyne_reduced"),
        dir("oxts"),
        dir("Image"),
        dir("imag"),
        dir(""),
        dir("calibration"),
    ];
    assert_eq!(
        detect(&entries),
        vec![
            ("velodyne_reduced".to_string(), DataKind::Velodyne),
            ("calibration".to_string(), DataKind::Calib),
        ]
    );
    assert!(detect(&Vec::new()).is_empty());
}

#[test]
fn classify_goes_by_prefix() {
    assert_eq!(DataKind::classify("image"), Some(DataKind::Image));
    assert_eq!(DataKind::classify("image_3"), Some(DataKind::Image));
    assert_eq!(DataKind::classify("velodyne"), Some(DataKind::Velodyne));
    assert_eq!(DataKind::classify("label_2"), Some(DataKind::Label));
    assert_eq!(DataKind::classify("calib"), Some(DataKind::Calib));
    assert_eq!(DataKind::classify("oxts"), None);
    assert_eq!(DataKind::classify("readme"), None);
    assert_eq!(DataKind::classify("my_image"), None);
    assert_eq!(DataKind::classify("cali"), None);
    assert_eq!(DataKind::classify(""), None);
}

#[test]
fn file_extensions_of_object_kinds() {
    assert_eq!(DataKind::Image.file_ext(), "png");
    assert_eq!(DataKind::Velodyne.file_ext(), "bin");
    assert_eq!(DataKind::Calib.file_ext(), "txt");
    assert_eq!(DataKind::Label.file_ext(), "txt");
}

#[test]
fn open_probes_the_first_key() {
    let files = standard_files(12);
    let dataset = open_object("/kitti/training", &standard_entries(), &files);
    assert_eq!(dataset.num_frames(), 12);
    let keys: Vec<(String, DataKind)> =
        dataset.keys().into_iter().map(|(key, kind)| (key.to_string(), kind)).collect();
    assert_eq!(keys, detect(&standard_entries()));
}

#[test]
fn open_counts_by_the_first_key_alone() {
    let mut files = files_of("/d", &[("velodyne", "bin")], 3);
    files.extend(files_of("/d", &[("image_2", "png")], 8));
    let dataset = open_object("/d", &[dir("velodyne"), dir("image_2")], &files);
    assert_eq!(dataset.num_frames(), 3);
    let dataset = open_object("/d", &[dir("image_2"), dir("velodyne")], &files);
    assert_eq!(dataset.num_frames(), 8);
}

#[test]
fn open_without_keys_has_no_frames() {
    let files = standard_files(5);
    let dataset = open_object("/kitti/training", &[dir("readme"), file("image_2")], &files);
    assert_eq!(dataset.num_frames(), 0);
    assert!(dataset.keys().is_empty());
    assert!(dataset.frame(0).is_none());
    assert!(dataset.frame_iter().is_empty());
    assert!(dataset.key("image_2").is_none());
}

#[test]
fn frame_is_present_below_the_frame_count_only() {
    for frames in [0usize, 1, 5, 40] {
        let files = standard_files(frames);
        let dataset = open_object("/kitti/training", &standard_entries(), &files);
        assert_eq!(dataset.num_frames(), frames);
        for idx in 0..frames {
            assert!(dataset.frame(idx).is_some());
        }
        assert!(dataset.frame(frames).is_none());
        assert!(dataset.frame(frames + 1000).is_none());
        assert_eq!(dataset.frame_iter().len(), frames);
    }
}

#[test]
fn frame_key_names_the_sample() {
    let files = standard_files(4);
    let dataset = open_object("/kitti/training", &standard_entries(), &files);
    let frame = dataset.frame(3).unwrap();
    let sample = frame.key("image_2").unwrap();
    assert_eq!(sample.kind(), DataKind::Image);
    assert_eq!(sample.path(), "/kitti/training/image_2/000003.png");
    let sample = frame.key("velodyne").unwrap();
    assert_eq!(sample.kind(), DataKind::Velodyne);
    assert_eq!(sample.path(), "/kitti/training/velodyne/000003.bin");
    let sample = frame.key("label_2").unwrap();
    assert_eq!(sample.kind(), DataKind::Label);
    assert_eq!(sample.path(), "/kitti/training/label_2/000003.txt");
    let sample = frame.key("calib").unwrap();
    assert_eq!(sample.kind(), DataKind::Calib);
    assert_eq!(sample.path(), "/kitti/training/calib/000003.txt");
    assert!(frame.key("readme").is_none());
    assert!(frame.key("image").is_none());
    assert!(frame.key("image_3").is_none());
}

#[test]
fn sample_iter_covers_every_key() {
    let files = standard_files(2);
    let dataset = open_object("/kitti/training", &standard_entries(), &files);
    let frame = dataset.frame(1).unwrap();
    let samples: Vec<(DataKind, String)> = frame
        .sample_iter()
        .iter()
        .map(|sample| (sample.kind(), sample.path().to_string()))
        .collect();
    assert_eq!(
        samples,
        vec![
            (DataKind::Image, "/kitti/training/image_2/000001.png".to_string()),
            (DataKind::Velodyne, "/kitti/training/velodyne/000001.bin".to_string()),
            (DataKind::Label, "/kitti/training/label_2/000001.txt".to_string()),
            (DataKind::Calib, "/kitti/training/calib/000001.txt".to_string()),
        ]
    );
}

#[test]
fn frame_iter_yields_frames_in_order() {
    let files = standard_files(3);
    let dataset = open_object("/kitti/training", &standard_entries(), &files);
    let paths: Vec<String> = dataset
        .frame_iter()
        .iter()
        .map(|frame| frame.key("velodyne").unwrap().path().to_string())
        .collect();
    assert_eq!(
        paths,
        vec![
            "/kitti/training/velodyne/000000.bin",
            "/kitti/training/velodyne/000001.bin",
            "/kitti/training/velodyne/000002.bin",
        ]
    );
}

#[test]
fn key_entry_addresses_frames() {
    let files = standard_files(6);
    let dataset = open_object("/kitti/training", &standard_entries(), &files);
    let entry = dataset.key("label_2").unwrap();
    let sample = entry.frame(5).unwrap();
    assert_eq!(sample.kind(), DataKind::Label);
    assert_eq!(sample.path(), "/kitti/training/label_2/000005.txt");
    assert!(entry.frame(6).is_none());
    assert!(entry.frame(1006).is_none());
    assert!(dataset.key("readme").is_none());
    assert!(dataset.key("label").is_none());
}

#[test]
fn resolution_does_not_depend_on_order() {
    let files = standard_files(10);
    let dataset = open_object("/kitti/training", &standard_entries(), &files);
    let resolve = |idx: usize| -> Vec<String> {
        dataset
            .frame(idx)
            .unwrap()
            .sample_iter()
            .iter()
            .map(|sample| sample.path().to_string())
            .collect()
    };
    let first_then_second = (resolve(2), resolve(7));
    let second_then_first = {
        let second = resolve(7);
        (resolve(2), second)
    };
    assert_eq!(first_then_second, second_then_first);
    let copy = dataset.clone();
    assert_eq!(copy.num_frames(), dataset.num_frames());
    assert_eq!(
        copy.frame(2).unwrap().key("calib").unwrap().path(),
        dataset.frame(2).unwrap().key("calib").unwrap().path()
    );
}

fn shared_between_threads<T: Send + Sync>() -> bool {
    true
}

#[test]
fn index_types_can_be_shared() {
    assert!(shared_between_threads::<ObjectDataset>());
    assert!(shared_between_threads::<kitti_dataset::dataset::object::Frame<'static>>());
    assert!(shared_between_threads::<kitti_dataset::dataset::object::KeyEntry<'static>>());
    assert!(shared_between_threads::<kitti_dataset::dataset::object::Sample>());
    assert!(shared_between_threads::<kitti_dataset::TrackingDataset>());
    assert!(shared_between_threads::<kitti_dataset::dataset::tracking::ImageSeq>());
    assert!(shared_between_threads::<kitti_dataset::dataset::tracking::VelodyneSeq>());
}
