use kitti_dataset::naming::{create_file_name, format_index, join_path};

#[test]
fn format_index_pads_to_width() {
    assert_eq!(format_index(0, 6), "000000");
    assert_eq!(format_index(7, 6), "000007");
    assert_eq!(format_index(42, 4), "0042");
    assert_eq!(format_index(999_999, 6), "999999");
    assert_eq!(format_index(10, 2), "10");
    assert_eq!(format_index(100, 3), "100");
}

#[test]
fn format_index_keeps_long_numerals_whole() {
    assert_eq!(format_index(1_234_567, 6), "1234567");
    assert_eq!(format_index(12345, 4), "12345");
    assert_eq!(format_index(5, 0), "5");
    assert_eq!(format_index(0, 0), "0");
    assert_eq!(format_index(0, 1), "0");
}

#[test]
fn format_index_agrees_with_std_formatting() {
    for idx in [0usize, 1, 9, 10, 11, 99, 100, 101, 4095, 65536, 999_999, 1_000_000, usize::MAX] {
        assert_eq!(format_index(idx, 6), format!("{idx:06}"));
        assert_eq!(format_index(idx, 4), format!("{idx:04}"));
    }
}

#[test]
fn file_name_with_and_without_extension() {
    assert_eq!(create_file_name(3, 6, Some("png")), "000003.png");
    assert_eq!(create_file_name(3, 4, Some("txt")), "0003.txt");
    assert_eq!(create_file_name(3, 4, None), "0003");
    assert_eq!(create_file_name(123, 6, Some("bin")), "000123.bin");
}

#[test]
fn join_path_puts_one_separator() {
    assert_eq!(join_path("/data/kitti", "velodyne"), "/data/kitti/velodyne");
    assert_eq!(join_path("root", "000001.bin"), "root/000001.bin");
    assert_ne!(join_path("root", "a"), "root");
}

#[test]
fn names_read_back_as_their_number() {
    for idx in [0usize, 1, 9, 10, 99, 100, 999_999, 1_000_000, 12_345_678] {
        for width in [0usize, 1, 4, 6, 12] {
            let name = format_index(idx, width);
            assert!(name.len() >= width);
            assert_eq!(name.parse::<usize>().unwrap(), idx);
        }
    }
}

#[test]
fn different_items_have_different_names() {
    let mut seen = std::collections::HashSet::new();
    for idx in 0usize..2000 {
        assert!(seen.insert(create_file_name(idx, 4, Some("txt"))));
    }
    assert!(!seen.insert(create_file_name(1999, 4, Some("txt"))));
    assert_ne!(create_file_name(1, 6, Some("bin")), create_file_name(10, 6, Some("bin")));
    assert_ne!(create_file_name(1, 1, None), create_file_name(11, 1, None));
}
