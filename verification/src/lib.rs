//! Addressing and decoding for KITTI-style datasets.
//!
//! A dataset is a directory whose subdirectories each hold one file (or one
//! directory of files) per frame, named by the zero-padded frame number. The
//! library classifies the subdirectories, finds the number of frames by
//! probing single paths, names the path of every sample, and decodes
//! Velodyne point-cloud records. It also holds the layout of calibration
//! files and the number codes of optional record fields.
//!
//! The library never touches the file system itself: the caller supplies
//! the directory listing, an existence predicate and the bytes of a file.

pub mod calibration;
pub mod codes;
pub mod dataset;
pub mod error;
pub mod naming;
pub mod oxts;
pub mod point_cloud;
pub mod text;

pub use dataset::{ObjectDataset, TrackingDataset};
pub use error::Error;
pub use oxts::GpsStatus;
pub use point_cloud::{Point, PointCloud, PointCloudDecoder};
