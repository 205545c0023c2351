use kitti_dataset::dataset::probe_max_frames;
use std::cell::Cell;
use std::collections::HashSet;

fn directory(dir: &str, width: usize, ext: Option<&str>, items: &[usize]) -> HashSet<String> {
    items
        .iter()
        .map(|idx| match ext {
            Some(ext) => format!("{dir}/{idx:0width$}.{ext}"),
            None => format!("{dir}/{idx:0width$}"),
        })
        .collect()
}

fn count_of(n: usize) -> usize {
    let items: Vec<usize> = (0..n).collect();
    let files = directory("/data/velodyne", 6, Some("bin"), &items);
    probe_max_frames("/data/velodyne", 6, Some("bin"), &|path: String| {
        files.contains(&path)
    })
}

#[test]
fn probe_counts_contiguous_items() {
    for n in [0usize, 1, 2, 7, 8, 9, 1000] {
        assert_eq!(count_of(n), n);
    }
}

#[test]
fn probe_counts_every_small_directory() {
    for n in 0usize..200 {
        assert_eq!(count_of(n), n);
    }
}

#[test]
fn probe_of_empty_directory_is_zero() {
    let files: HashSet<String> = HashSet::new();
    let count = probe_max_frames("/data/image_2", 6, Some("png"), &|path: String| {
        files.contains(&path)
    });
    assert_eq!(count, 0);
}

#[test]
fn probe_ignores_other_extensions_and_widths() {
    let items: Vec<usize> = (0..5).collect();
    let files = directory("/d", 6, Some("png"), &items);
    let present = |path: String| files.contains(&path);
    assert_eq!(probe_max_frames("/d", 6, Some("png"), &present), 5);
    assert_eq!(probe_max_frames("/d", 6, Some("bin"), &present), 0);
    assert_eq!(probe_max_frames("/d", 4, Some("png"), &present), 0);
    assert_eq!(probe_max_frames("/d", 6, None, &present), 0);
    assert_eq!(probe_max_frames("/e", 6, Some("png"), &present), 0);
}

#[test]
fn probe_without_extension_counts_directories() {
    let items: Vec<usize> = (0..21).collect();
    let files = directory("/t/image_02", 4, None, &items);
    let count = probe_max_frames("/t/image_02", 4, None, &|path: String| files.contains(&path));
    assert_eq!(count, 21);
}

#[test]
fn probe_with_only_item_zero_is_one() {
    let files = directory("/d", 6, Some("txt"), &[0]);
    let count = probe_max_frames("/d", 6, Some("txt"), &|path: String| files.contains(&path));
    assert_eq!(count, 1);
}

#[test]
fn probe_stops_at_a_confirmed_boundary() {
    // Items 0..=4 and 6..=8: item 8 is found while doubling, so the gap at 5
    // is never seen and the boundary found lies above it.
    let files = directory("/d", 6, Some("bin"), &[0, 1, 2, 3, 4, 6, 7, 8]);
    let count = probe_max_frames("/d", 6, Some("bin"), &|path: String| files.contains(&path));
    assert_eq!(count, 9);
    assert!(files.contains("/d/000008.bin"));
    assert!(!files.contains("/d/000009.bin"));
}

#[test]
fn probe_asks_logarithmically_often() {
    let asked = Cell::new(0usize);
    let count = probe_max_frames("/d", 6, Some("bin"), &|path: String| {
        asked.set(asked.get() + 1);
        let stem = path
            .strip_prefix("/d/")
            .and_then(|name| name.strip_suffix(".bin"))
            .unwrap();
        stem.parse::<usize>().unwrap() < 1_000_000
    });
    assert_eq!(count, 1_000_000);
    assert!(asked.get() <= 45);
}

#[test]
fn probe_saturates_when_everything_exists() {
    let count = probe_max_frames("/d", 6, Some("bin"), &|_path: String| true);
    assert_eq!(count, usize::MAX);
}
