use vstd::prelude::*;

verus! {

/// Why an identity could not be read from a DICOM file.
#[derive(Debug)]
pub enum Error {
    /// The file could not be opened, or is not a well-formed DICOM stream.
    DicomReadError(dicom::object::ReadError),
    /// A required attribute is absent from the data set.
    DicomAccessError(dicom::object::AccessError),
    /// A required attribute's value has no string form.
    DicomConvertValueError(dicom::core::value::ConvertValueError),
    /// A required attribute's string form, with the given group and element
    /// numbers, is empty.
    DicomEmptyValue(u16, u16),
}


impl From<dicom::object::ReadError> for Error {
    fn from(e: dicom::object::ReadError) -> (r: Error) {
        Error::DicomReadError(e)
    }
}

impl vstd::std_specs::convert::FromSpecImpl<dicom::object::ReadError> for Error {
    open spec fn obeys_from_spec() -> bool {
        true
    }

    open spec fn from_spec(e: dicom::object::ReadError) -> Error {
        Error::DicomReadError(e)
    }
}

impl From<dicom::object::AccessError> for Error {
    fn from(e: dicom::object::AccessError) -> (r: Error) {
        Error::DicomAccessError(e)
    }
}

impl vstd::std_specs::convert::FromSpecImpl<dicom::object::AccessError> for Error {
    open spec fn obeys_from_spec() -> bool {
        true
    }

    open spec fn from_spec(e: dicom::object::AccessError) -> Error {
        Error::DicomAccessError(e)
    }
}

impl From<dicom::core::value::ConvertValueError> for Error {
    fn from(e: dicom::core::value::ConvertValueError) -> (r: Error) {
        Error::DicomConvertValueError(e)
    }
}

impl vstd::std_specs::convert::FromSpecImpl<dicom::core::value::ConvertValueError> for Error {
    open spec fn obeys_from_spec() -> bool {
        true
    }

    open spec fn from_spec(e: dicom::core::value::ConvertValueError) -> Error {
        Error::DicomConvertValueError(e)
    }
}

} // verus!
