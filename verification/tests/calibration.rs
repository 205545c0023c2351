use kitti_dataset::calibration::CalibKind;
use kitti_dataset::Error;

#[test]
fn object_calibration_layout() {
    let kind = CalibKind::Object;
    assert_eq!(kind.num_lines(), 7);
    assert_eq!(kind.line(0), Some(("P0:", 12)));
    assert_eq!(kind.line(1), Some(("P1:", 12)));
    assert_eq!(kind.line(2), Some(("P2:", 12)));
    assert_eq!(kind.line(3), Some(("P3:", 12)));
    assert_eq!(kind.line(4), Some(("R0_rect:", 9)));
    assert_eq!(kind.line(5), Some(("Tr_velo_to_cam:", 12)));
    assert_eq!(kind.line(6), Some(("Tr_imu_to_velo:", 12)));
    assert_eq!(kind.line(7), None);
}

#[test]
fn tracking_calibration_layout() {
    let kind = CalibKind::Tracking;
    assert_eq!(kind.num_lines(), 7);
    assert_eq!(kind.line(3), Some(("P3:", 12)));
    assert_eq!(kind.line(4), Some(("R_rect", 9)));
    assert_eq!(kind.line(5), Some(("Tr_velo_cam", 12)));
    assert_eq!(kind.line(6), Some(("Tr_imu_velo", 12)));
    assert_eq!(kind.line(7), None);
}

#[test]
fn odometry_calibration_layout() {
    let kind = CalibKind::Odometry;
    assert_eq!(kind.num_lines(), 5);
    assert_eq!(kind.line(0), Some(("P0:", 12)));
    assert_eq!(kind.line(4), Some(("Tr:", 12)));
    assert_eq!(kind.line(5), None);
    assert_eq!(kind.line(usize::MAX), None);
}

#[test]
fn every_line_of_a_layout_is_valid() {
    for kind in [CalibKind::Object, CalibKind::Tracking, CalibKind::Odometry] {
        for line in 0..kind.num_lines() {
            let (name, values) = kind.line(line).unwrap();
            assert_eq!(kind.validate_line(line, name, values), Ok(()));
        }
        assert_eq!(kind.line(kind.num_lines()), None);
    }
}

#[test]
fn the_name_of_a_line_is_looked_at_first() {
    let kind = CalibKind::Object;
    assert_eq!(kind.validate_line(0, "P0:", 12), Ok(()));
    assert_eq!(kind.validate_line(0, "P1:", 12), Err(Error::UnexpectedCalibName { line: 0 }));
    assert_eq!(kind.validate_line(0, "P0", 12), Err(Error::UnexpectedCalibName { line: 0 }));
    assert_eq!(kind.validate_line(0, "P1:", 3), Err(Error::UnexpectedCalibName { line: 0 }));
    assert_eq!(
        kind.validate_line(0, "P0:", 11),
        Err(Error::UnexpectedCalibValues { line: 0, expected: 12, found: 11 })
    );
    assert_eq!(
        kind.validate_line(4, "R0_rect:", 12),
        Err(Error::UnexpectedCalibValues { line: 4, expected: 9, found: 12 })
    );
    assert_eq!(kind.validate_line(4, "R_rect", 9), Err(Error::UnexpectedCalibName { line: 4 }));
    assert_eq!(CalibKind::Tracking.validate_line(4, "R_rect", 9), Ok(()));
    assert_eq!(
        CalibKind::Odometry.validate_line(4, "Tr:", 0),
        Err(Error::UnexpectedCalibValues { line: 4, expected: 12, found: 0 })
    );
    assert_eq!(CalibKind::Odometry.validate_line(5, "anything", 3), Ok(()));
}
