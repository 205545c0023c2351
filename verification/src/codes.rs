//! The numbers that stand for optional fields in the records of label and
//! navigation files. In a file, -1 says that the field is not known.

pub mod mode;
pub mod occlusion;
pub mod track_id;
