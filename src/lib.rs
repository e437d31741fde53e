//! Reads the identity of a DICOM object (its SOP class and instance, modality,
//! patient and frame of reference) from a DICOM file, failing on the first
//! attribute that cannot be read.
pub mod dicom_api;
pub mod error;
pub mod identity;
pub mod laws;

pub use error::Error;
pub use identity::{identity_from_object, identity_from_opened, read_dicom_file, DicomFile};
