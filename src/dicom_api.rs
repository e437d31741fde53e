//! The DICOM toolkit as this library sees it: the toolkit's types, names for
//! what its lookups return, and one wrapper for each toolkit call.
use vstd::prelude::*;

verus! {

#[verifier::external_type_specification]
#[verifier::external_body]
#[verifier::reject_recursive_types(O)]
pub struct ExFileDicomObject<O>(dicom::object::FileDicomObject<O>);

#[verifier::external_type_specification]
#[verifier::external_body]
#[verifier::reject_recursive_types(D)]
pub struct ExInMemDicomObject<D>(dicom::object::InMemDicomObject<D>);

#[verifier::external_type_specification]
#[verifier::external_body]
pub struct ExStandardDataDictionary(dicom::object::StandardDataDictionary);

#[verifier::external_type_specification]
#[verifier::external_body]
#[verifier::reject_recursive_types(I)]
#[verifier::reject_recursive_types(P)]
pub struct ExDataElement<I, P>(dicom::core::DataElement<I, P>);

#[verifier::external_type_specification]
#[verifier::external_body]
pub struct ExReadError(dicom::object::ReadError);

#[verifier::external_type_specification]
#[verifier::external_body]
pub struct ExAccessError(dicom::object::AccessError);

#[verifier::external_type_specification]
#[verifier::external_body]
pub struct ExConvertValueError(dicom::core::value::ConvertValueError);

/// A DICOM file read into memory: its file meta group and its data set.
pub type DicomObject = dicom::object::FileDicomObject<
    dicom::object::InMemDicomObject<dicom::object::StandardDataDictionary>,
>;

/// One data element of a [`DicomObject`]'s data set.
pub type DicomElement = dicom::core::DataElement<
    dicom::object::InMemDicomObject<dicom::object::StandardDataDictionary>,
    Vec<u8>,
>;

/// The data set of an object: each element, keyed by its (group, element) tag.
pub uninterp spec fn elements_of(obj: DicomObject) -> Map<(u16, u16), DicomElement>;

/// The string form of an element's value, trimmed of trailing padding, or
/// `None` where the value has no string form.
pub uninterp spec fn text_of(e: DicomElement) -> Option<Seq<char>>;

/// Relies on `dicom::object::open_file`, which reads and parses the file at
/// `path`. What it returns depends on the file system, so nothing is stated.
#[verifier::external_body]
pub(crate) fn open_dicom(path: &str) -> (r: Result<DicomObject, dicom::object::ReadError>) {
    dicom::object::open_file(path)
}

/// Relies on `InMemDicomObject::element`: a lookup by tag in the object's
/// element map, which fails exactly when no element has that tag.
#[verifier::external_body]
pub(crate) fn lookup_element(obj: &DicomObject, group: u16, element: u16) -> (r: Result<
    &DicomElement,
    dicom::object::AccessError,
>)
    ensures
        r is Ok <==> elements_of(*obj).contains_key((group, element)),
        r is Ok ==> *r->Ok_0 == elements_of(*obj)[(group, element)],
{
    obj.element(dicom::core::Tag(group, element))
}

/// Relies on `DataElement::to_str`: the element's value as one string, which
/// depends on the element alone and fails where the value is not primitive.
#[verifier::external_body]
pub(crate) fn element_text(e: &DicomElement) -> (r: Result<
    String,
    dicom::core::value::ConvertValueError,
>)
    ensures
        r is Ok <==> text_of(*e) is Some,
        r is Ok ==> r->Ok_0@ == text_of(*e)->Some_0,
{
    e.to_str().map(|s| s.into_owned())
}

} // verus!
