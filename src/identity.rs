//! The identity record of a DICOM object and its fail-fast extraction.
use vstd::prelude::*;

use crate::dicom_api::{
    element_text, elements_of, lookup_element, open_dicom, text_of, DicomObject,
};
use crate::error::Error;

verus! {

/// Number of attributes that make up an identity.
pub const IDENTITY_LEN: usize = 6;

/// The (group, element) tags of the identity attributes, in the order in
/// which they are read: SOP Class UID, SOP Instance UID, Modality, Patient ID,
/// Patient Name, Frame of Reference UID.
pub open spec fn identity_tags() -> Seq<(u16, u16)> {
    seq![
        (0x0008u16, 0x0016u16),
        (0x0008u16, 0x0018u16),
        (0x0008u16, 0x0060u16),
        (0x0010u16, 0x0020u16),
        (0x0010u16, 0x0010u16),
        (0x0020u16, 0x0052u16),
    ]
}

/// The tag of the `i`-th identity attribute.
pub fn identity_tag(i: usize) -> (t: (u16, u16))
    requires
        i < IDENTITY_LEN,
    ensures
        t == identity_tags()[i as int],
{
    match i {
        0 => (0x0008, 0x0016),
        1 => (0x0008, 0x0018),
        2 => (0x0008, 0x0060),
        3 => (0x0010, 0x0020),
        4 => (0x0010, 0x0010),
        _ => (0x0020, 0x0052),
    }
}

/// The attribute with tag `tag` is present and has a string form.
pub open spec fn attribute_readable(obj: DicomObject, tag: (u16, u16)) -> bool {
    &&& elements_of(obj).contains_key(tag)
    &&& text_of(elements_of(obj)[tag]) is Some
}

/// The attribute with tag `tag` is present and has a non-empty string form.
pub open spec fn attribute_usable(obj: DicomObject, tag: (u16, u16)) -> bool {
    &&& attribute_readable(obj, tag)
    &&& text_of(elements_of(obj)[tag])->Some_0.len() > 0
}

/// Every identity attribute of `obj` is present and has a string form.
pub open spec fn identity_readable(obj: DicomObject) -> bool {
    forall|i: int| 0 <= i < IDENTITY_LEN ==> attribute_readable(obj, #[trigger] identity_tags()[i])
}

/// Every identity attribute of `obj` is usable.
pub open spec fn identity_complete(obj: DicomObject) -> bool {
    forall|i: int| 0 <= i < IDENTITY_LEN ==> attribute_usable(obj, #[trigger] identity_tags()[i])
}

/// The string form of the `i`-th identity attribute of `obj`.
pub open spec fn identity_value(obj: DicomObject, i: int) -> Seq<char> {
    text_of(elements_of(obj)[identity_tags()[i]])->Some_0
}

/// The six identity values of `obj`, in the order of [`identity_tags`].
pub open spec fn identity_values(obj: DicomObject) -> Seq<Seq<char>> {
    Seq::new(IDENTITY_LEN as nat, |i: int| identity_value(obj, i))
}

/// The `i`-th identity attribute is the first one of `obj` that is absent or
/// has no string form.
pub open spec fn first_unreadable(obj: DicomObject, i: int) -> bool {
    &&& 0 <= i < IDENTITY_LEN
    &&& !attribute_readable(obj, identity_tags()[i])
    &&& forall|j: int| 0 <= j < i ==> attribute_readable(obj, #[trigger] identity_tags()[j])
}

/// Every identity attribute of `obj` has a string form, and the `i`-th is the
/// first whose string form is empty.
pub open spec fn first_empty(obj: DicomObject, i: int) -> bool {
    &&& identity_readable(obj)
    &&& 0 <= i < IDENTITY_LEN
    &&& !attribute_usable(obj, identity_tags()[i])
    &&& forall|j: int| 0 <= j < i ==> attribute_usable(obj, #[trigger] identity_tags()[j])
}

/// The `i`-th identity attribute is the one whose failure `obj` reports: the
/// first that cannot be read, or, where all can, the first that is empty.
pub open spec fn first_failure(obj: DicomObject, i: int) -> bool {
    first_unreadable(obj, i) || first_empty(obj, i)
}

/// `e` is the error owed for the unusable attribute `tag` of `obj`.
pub open spec fn failure_error(obj: DicomObject, tag: (u16, u16), e: Error) -> bool {
    if !elements_of(obj).contains_key(tag) {
        e is DicomAccessError
    } else if text_of(elements_of(obj)[tag]) is None {
        e is DicomConvertValueError
    } else {
        e == Error::DicomEmptyValue(tag.0, tag.1)
    }
}

/// `r` is what extracting the identity of `obj`, read from `path`, yields:
/// the record of `path` and the six values where every attribute is usable,
/// else the error of the attribute that [`first_failure`] picks.
pub open spec fn extracted(path: Seq<char>, obj: DicomObject, r: Result<DicomFile, Error>) -> bool {
    match r {
        Ok(f) => {
            &&& identity_complete(obj)
            &&& f.path@ == path
            &&& f.attribute_values() == identity_values(obj)
        },
        Err(e) => exists|i: int| first_failure(obj, i) && failure_error(obj, identity_tags()[i], e),
    }
}

/// Stores the path of the DICOM file and a limited set of DICOM attributes to
/// identify the patient and the type of DICOM file.
#[derive(Clone, Debug)]
pub struct DicomFile {
    /// Path of the DICOM file
    pub path: String,
    /// Uniquely identifies the SOP class.
    pub sop_class_uid: String,
    /// Uniquely identifies the SOP instance.
    pub sop_instance_uid: String,
    /// Type of equipment on which the data was acquired.
    pub modality: String,
    /// Uniquely identifies the patient.
    pub patient_id: String,
    /// Name of the patient
    pub patient_name: String,
    /// Uniquely identifies the Frame of Reference for a series.
    pub frame_of_reference_uid: String,
}

impl DicomFile {
    /// The six attribute values, in the order of [`identity_tags`].
    pub open spec fn attribute_values(&self) -> Seq<Seq<char>> {
        seq![
            self.sop_class_uid@,
            self.sop_instance_uid@,
            self.modality@,
            self.patient_id@,
            self.patient_name@,
            self.frame_of_reference_uid@,
        ]
    }

    /// Every attribute value is non-empty.
    pub open spec fn wf(&self) -> bool {
        forall|i: int| 0 <= i < IDENTITY_LEN ==> #[trigger] self.attribute_values()[i].len() > 0
    }
}

impl PartialEq for DicomFile {
    fn eq(&self, other: &DicomFile) -> (r: bool)
        ensures
            r == (self.path@ == other.path@ && self.attribute_values() == other.attribute_values()),
    {
        let same = self.path == other.path && self.sop_class_uid == other.sop_class_uid
            && self.sop_instance_uid == other.sop_instance_uid && self.modality == other.modality
            && self.patient_id == other.patient_id && self.patient_name == other.patient_name
            && self.frame_of_reference_uid == other.frame_of_reference_uid;
        proof {
            if self.path@ == other.path@ && self.attribute_values() == other.attribute_values() {
                assert(self.attribute_values()[0] == other.attribute_values()[0]);
                assert(self.attribute_values()[1] == other.attribute_values()[1]);
                assert(self.attribute_values()[2] == other.attribute_values()[2]);
                assert(self.attribute_values()[3] == other.attribute_values()[3]);
                assert(self.attribute_values()[4] == other.attribute_values()[4]);
                assert(self.attribute_values()[5] == other.attribute_values()[5]);
            }
            if same {
                assert(self.attribute_values() =~= other.attribute_values());
            }
        }
        same
    }
}

impl vstd::std_specs::cmp::PartialEqSpecImpl for DicomFile {
    open spec fn obeys_eq_spec() -> bool {
        true
    }

    open spec fn eq_spec(&self, other: &DicomFile) -> bool {
        self.path@ == other.path@ && self.attribute_values() == other.attribute_values()
    }
}

impl Eq for DicomFile {
}

impl Default for DicomFile {
    /// A record whose path and attribute values are all empty.
    fn default() -> (r: DicomFile)
        ensures
            r.path@ == Seq::<char>::empty(),
            r.attribute_values() == Seq::new(IDENTITY_LEN as nat, |i: int| Seq::<char>::empty()),
    {
        let r = DicomFile {
            path: String::new(),
            sop_class_uid: String::new(),
            sop_instance_uid: String::new(),
            modality: String::new(),
            patient_id: String::new(),
            patient_name: String::new(),
            frame_of_reference_uid: String::new(),
        };
        assert(r.attribute_values() =~= Seq::new(IDENTITY_LEN as nat, |i: int| Seq::<char>::empty()));
        r
    }
}

/// Builds the identity record of `obj`, read from `path`. It looks up and
/// converts the identity attributes in order, stopping at the first that is
/// absent or has no string form; only once all six are read does it reject
/// the first whose string form is empty.
pub fn identity_from_object(path: &str, obj: &DicomObject) -> (r: Result<DicomFile, Error>)
    ensures
        extracted(path@, *obj, r),
        r is Ok ==> r->Ok_0.wf(),
{
    let mut values: Vec<String> = Vec::new();
    let mut i: usize = 0;
    while i < IDENTITY_LEN
        invariant
            i <= IDENTITY_LEN,
            values.len() == i,
            forall|j: int| 0 <= j < i ==> attribute_readable(*obj, #[trigger] identity_tags()[j]),
            forall|j: int| 0 <= j < i ==> (#[trigger] values@[j])@ == identity_value(*obj, j),
        decreases IDENTITY_LEN - i,
    {
        let (group, element) = identity_tag(i);
        let found = match lookup_element(obj, group, element) {
            Ok(found) => found,
            Err(e) => {
                let r = Err(Error::DicomAccessError(e));
                assert(first_unreadable(*obj, i as int));
                assert(first_failure(*obj, i as int));
                return r;
            },
        };
        let text = match element_text(found) {
            Ok(text) => text,
            Err(e) => {
                let r = Err(Error::DicomConvertValueError(e));
                assert(first_unreadable(*obj, i as int));
                assert(first_failure(*obj, i as int));
                return r;
            },
        };
        values.push(text);
        i += 1;
    }
    assert(identity_readable(*obj));
    let mut k: usize = 0;
    while k < IDENTITY_LEN
        invariant
            k <= IDENTITY_LEN,
            values.len() == IDENTITY_LEN,
            identity_readable(*obj),
            forall|j: int| 0 <= j < IDENTITY_LEN ==> (#[trigger] values@[j])@ == identity_value(*obj, j),
            forall|j: int| 0 <= j < k ==> attribute_usable(*obj, #[trigger] identity_tags()[j]),
        decreases IDENTITY_LEN - k,
    {
        if values[k].as_str().is_empty() {
            let (group, element) = identity_tag(k);
            assert(first_empty(*obj, k as int));
            assert(first_failure(*obj, k as int));
            return Err(Error::DicomEmptyValue(group, element));
        }
        assert(values@[k as int]@ == identity_value(*obj, k as int));
        k += 1;
    }
    let record = DicomFile {
        path: path.to_owned(),
        sop_class_uid: values[0].clone(),
        sop_instance_uid: values[1].clone(),
        modality: values[2].clone(),
        patient_id: values[3].clone(),
        patient_name: values[4].clone(),
        frame_of_reference_uid: values[5].clone(),
    };
    assert(record.attribute_values() =~= identity_values(*obj));
    Ok(record)
}

/// The identity record of the file at `path`, given what opening it gave:
/// the read error where it could not be opened as a DICOM object, else the
/// result of [`identity_from_object`] on the object.
pub fn identity_from_opened(
    path: &str,
    opened: Result<DicomObject, dicom::object::ReadError>,
) -> (r: Result<DicomFile, Error>)
    ensures
        opened is Err ==> r == Err::<DicomFile, Error>(Error::DicomReadError(opened->Err_0)),
        opened is Ok ==> extracted(path@, opened->Ok_0, r),
        r is Ok ==> r->Ok_0.wf(),
{
    match opened {
        Ok(obj) => identity_from_object(path, &obj),
        Err(e) => Err(Error::DicomReadError(e)),
    }
}

/// Reads the identity record of the DICOM file at `path`: opens it, then
/// hands what opening gave to [`identity_from_opened`].
pub fn read_dicom_file(path: &str) -> (r: Result<DicomFile, Error>)
    ensures
        r matches Err(Error::DicomReadError(_)) || exists|obj: DicomObject|
            #[trigger] extracted(path@, obj, r),
        r is Ok ==> r->Ok_0.wf() && r->Ok_0.path@ == path@,
{
    let opened = open_dicom(path);
    let r = identity_from_opened(path, opened);
    proof {
        if opened is Ok {
            assert(extracted(path@, opened->Ok_0, r));
        }
    }
    r
}

} // verus!
