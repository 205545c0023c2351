use kitti_dataset::codes::occlusion::Occlusion;
use kitti_dataset::codes::{mode, occlusion, track_id};
use kitti_dataset::{Error, GpsStatus};

#[test]
fn mode_is_written_as_a_signed_byte() {
    assert_eq!(mode::serialize(&None), -1);
    assert_eq!(mode::serialize(&Some(0)), 0);
    assert_eq!(mode::serialize(&Some(5)), 5);
    assert_eq!(mode::serialize(&Some(127)), 127);
    assert_eq!(mode::serialize(&Some(128)), -128);
    assert_eq!(mode::serialize(&Some(200)), -56);
    assert_eq!(mode::serialize(&Some(255)), -1);
}

#[test]
fn mode_is_read_from_a_signed_byte() {
    assert_eq!(mode::deserialize(-1), Ok(None));
    assert_eq!(mode::deserialize(0), Ok(Some(0)));
    assert_eq!(mode::deserialize(6), Ok(Some(6)));
    assert_eq!(mode::deserialize(127), Ok(Some(127)));
    assert_eq!(mode::deserialize(-2), Err(Error::InvalidModeValue(-2)));
    assert_eq!(mode::deserialize(-128), Err(Error::InvalidModeValue(-128)));
}

#[test]
fn mode_round_trip() {
    assert_eq!(mode::deserialize(mode::serialize(&None)), Ok(None));
    for m in 0u8..128 {
        assert_eq!(mode::deserialize(mode::serialize(&Some(m))), Ok(Some(m)));
    }
}

#[test]
fn occlusion_codes() {
    assert_eq!(occlusion::serialize(&None), -1);
    assert_eq!(occlusion::serialize(&Some(Occlusion::FullyVisible)), 0);
    assert_eq!(occlusion::serialize(&Some(Occlusion::PartlyVisible)), 1);
    assert_eq!(occlusion::serialize(&Some(Occlusion::LargelyOccluded)), 2);
    assert_eq!(occlusion::serialize(&Some(Occlusion::Unknown)), 3);
    assert_eq!(occlusion::deserialize(-1), Ok(None));
    assert_eq!(occlusion::deserialize(0), Ok(Some(Occlusion::FullyVisible)));
    assert_eq!(occlusion::deserialize(1), Ok(Some(Occlusion::PartlyVisible)));
    assert_eq!(occlusion::deserialize(2), Ok(Some(Occlusion::LargelyOccluded)));
    assert_eq!(occlusion::deserialize(3), Ok(Some(Occlusion::Unknown)));
    assert_eq!(occlusion::deserialize(4), Err(Error::InvalidOcclusionValue(4)));
    assert_eq!(occlusion::deserialize(-2), Err(Error::InvalidOcclusionValue(-2)));
    assert_eq!(occlusion::deserialize(127), Err(Error::InvalidOcclusionValue(127)));
    assert_eq!(Occlusion::from_u8(2), Some(Occlusion::LargelyOccluded));
    assert_eq!(Occlusion::from_u8(4), None);
    assert_eq!(Occlusion::from_u8(255), None);
}

#[test]
fn occlusion_round_trip() {
    let states = [
        None,
        Some(Occlusion::FullyVisible),
        Some(Occlusion::PartlyVisible),
        Some(Occlusion::LargelyOccluded),
        Some(Occlusion::Unknown),
    ];
    for state in states {
        assert_eq!(occlusion::deserialize(occlusion::serialize(&state)), Ok(state));
    }
}

#[test]
fn track_id_codes() {
    assert_eq!(track_id::serialize(&None), -1);
    assert_eq!(track_id::serialize(&Some(0)), 0);
    assert_eq!(track_id::serialize(&Some(17)), 17);
    assert_eq!(track_id::serialize(&Some(0x7fff_ffff)), i32::MAX);
    assert_eq!(track_id::serialize(&Some(0x8000_0000)), i32::MIN);
    assert_eq!(track_id::serialize(&Some(u32::MAX)), -1);
    assert_eq!(track_id::deserialize(-1), None);
    assert_eq!(track_id::deserialize(-7), None);
    assert_eq!(track_id::deserialize(0), Some(0));
    assert_eq!(track_id::deserialize(42), Some(42));
    assert_eq!(track_id::deserialize(i32::MAX), Some(0x7fff_ffff));
    for t in [0u32, 1, 99, 0x7fff_ffff] {
        assert_eq!(track_id::deserialize(track_id::serialize(&Some(t))), Some(t));
    }
}

#[test]
fn gps_status_holds_its_fields() {
    let status = GpsStatus { navstat: 4, numsats: 9, posmode: Some(5), velmode: None, orimode: Some(6) };
    let copy = status;
    assert_eq!(copy, status);
    assert_eq!(copy.numsats, 9);
    assert_eq!(mode::serialize(&copy.velmode), -1);
}
