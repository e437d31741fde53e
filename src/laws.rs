//! Properties of identity extraction that relate several outcomes.
use vstd::prelude::*;

use vstd::std_specs::cmp::PartialEqSpec;

use crate::dicom_api::{elements_of, DicomObject};
use crate::error::Error;
use crate::dicom_api::text_of;
use crate::identity::{
    attribute_readable, attribute_usable, extracted, failure_error, first_empty, first_failure,
    first_unreadable, identity_complete, identity_tags, identity_values, DicomFile, IDENTITY_LEN,
};

verus! {

/// At most one attribute is the one whose failure an object reports.
proof fn lemma_first_failure_unique(obj: DicomObject, i: int, k: int)
    requires
        first_failure(obj, i),
        first_failure(obj, k),
    ensures
        i == k,
{
    if first_unreadable(obj, i) && first_empty(obj, k) {
        assert(attribute_readable(obj, identity_tags()[i]));
    } else if first_empty(obj, i) && first_unreadable(obj, k) {
        assert(attribute_readable(obj, identity_tags()[k]));
    } else if i < k {
        assert(attribute_readable(obj, identity_tags()[i]));
    } else if k < i {
        assert(attribute_readable(obj, identity_tags()[k]));
    }
}

/// The first identity attribute that is absent or has no string form decides
/// the outcome: no record, and an access error where it is absent, a
/// conversion error where it has no string form, whatever follows it.
pub proof fn lemma_first_unreadable_decides(
    path: Seq<char>,
    obj: DicomObject,
    r: Result<DicomFile, Error>,
    i: int,
)
    requires
        extracted(path, obj, r),
        first_unreadable(obj, i),
    ensures
        r is Err,
        !elements_of(obj).contains_key(identity_tags()[i]) ==> r->Err_0 is DicomAccessError,
        elements_of(obj).contains_key(identity_tags()[i]) ==> r->Err_0 is DicomConvertValueError,
{
    assert(first_failure(obj, i));
    if let Err(e) = r {
        let k = choose|k: int| first_failure(obj, k) && failure_error(obj, identity_tags()[k], e);
        lemma_first_failure_unique(obj, i, k);
    } else {
        assert(attribute_usable(obj, identity_tags()[i]));
    }
}

/// An object whose identity attributes are all present and non-empty yields a
/// record holding exactly their string forms, each non-empty.
pub proof fn lemma_success_shape(path: Seq<char>, obj: DicomObject, r: Result<DicomFile, Error>)
    requires
        extracted(path, obj, r),
        identity_complete(obj),
    ensures
        r is Ok,
        r->Ok_0.path@ == path,
        r->Ok_0.attribute_values() == identity_values(obj),
        r->Ok_0.wf(),
{
    if let Err(e) = r {
        let i = choose|i: int| first_failure(obj, i) && failure_error(obj, identity_tags()[i], e);
        assert(attribute_usable(obj, identity_tags()[i]));
    }
    let f = r->Ok_0;
    assert forall|i: int| 0 <= i < IDENTITY_LEN implies #[trigger] f.attribute_values()[i].len() > 0 by {
        assert(attribute_usable(obj, identity_tags()[i]));
        assert(f.attribute_values()[i] == identity_values(obj)[i]);
    }
}

/// An object that lacks one of the identity attributes yields no record; where
/// every attribute read before it is present and has a string form, the error
/// is an access error.
pub proof fn lemma_missing_attribute(path: Seq<char>, obj: DicomObject, r: Result<DicomFile, Error>, i: int)
    requires
        extracted(path, obj, r),
        0 <= i < IDENTITY_LEN,
        !elements_of(obj).contains_key(identity_tags()[i]),
    ensures
        r is Err,
        (forall|j: int| 0 <= j < i ==> attribute_readable(obj, #[trigger] identity_tags()[j]))
            ==> r->Err_0 is DicomAccessError,
{
    if let Ok(f) = r {
        assert(attribute_usable(obj, identity_tags()[i]));
    }
    if forall|j: int| 0 <= j < i ==> attribute_readable(obj, #[trigger] identity_tags()[j]) {
        lemma_first_unreadable_decides(path, obj, r, i);
    }
}

/// An object with an identity attribute that has no string form yields no
/// record; where every attribute read before it is present and has a string
/// form, the error is a conversion error.
pub proof fn lemma_unconvertible_attribute(
    path: Seq<char>,
    obj: DicomObject,
    r: Result<DicomFile, Error>,
    i: int,
)
    requires
        extracted(path, obj, r),
        0 <= i < IDENTITY_LEN,
        elements_of(obj).contains_key(identity_tags()[i]),
        text_of(elements_of(obj)[identity_tags()[i]]) is None,
    ensures
        r is Err,
        (forall|j: int| 0 <= j < i ==> attribute_readable(obj, #[trigger] identity_tags()[j]))
            ==> r->Err_0 is DicomConvertValueError,
{
    if let Ok(f) = r {
        assert(attribute_usable(obj, identity_tags()[i]));
    }
    if forall|j: int| 0 <= j < i ==> attribute_readable(obj, #[trigger] identity_tags()[j]) {
        lemma_first_unreadable_decides(path, obj, r, i);
    }
}

/// Extracting the same object twice at one path gives the same outcome: two
/// equal records, or two errors of the same kind, for the same attribute.
pub proof fn lemma_extraction_deterministic(
    path: Seq<char>,
    obj: DicomObject,
    r1: Result<DicomFile, Error>,
    r2: Result<DicomFile, Error>,
)
    requires
        extracted(path, obj, r1),
        extracted(path, obj, r2),
    ensures
        r1 is Ok <==> r2 is Ok,
        r1 is Ok ==> r1->Ok_0.eq_spec(&r2->Ok_0),
        r1 is Err ==> same_failure(r1->Err_0, r2->Err_0),
{
    if let Err(e1) = r1 {
        let i = choose|i: int| first_failure(obj, i) && failure_error(obj, identity_tags()[i], e1);
        if let Err(e2) = r2 {
            let k = choose|k: int| first_failure(obj, k) && failure_error(obj, identity_tags()[k], e2);
            lemma_first_failure_unique(obj, i, k);
        } else {
            assert(attribute_usable(obj, identity_tags()[i]));
        }
    } else if let Err(e2) = r2 {
        let k = choose|k: int| first_failure(obj, k) && failure_error(obj, identity_tags()[k], e2);
        assert(attribute_usable(obj, identity_tags()[k]));
    }
}

/// Two errors are of the same kind, and equal where both are empty values.
pub open spec fn same_failure(e1: Error, e2: Error) -> bool {
    &&& e1 is DicomReadError <==> e2 is DicomReadError
    &&& e1 is DicomAccessError <==> e2 is DicomAccessError
    &&& e1 is DicomConvertValueError <==> e2 is DicomConvertValueError
    &&& e1 is DicomEmptyValue ==> e1 == e2
}

/// Records are compared by path too: the same object extracted at two
/// different paths gives two records with the same six values that are not
/// equal.
pub proof fn lemma_equality_is_structural(
    path1: Seq<char>,
    path2: Seq<char>,
    obj: DicomObject,
    r1: Result<DicomFile, Error>,
    r2: Result<DicomFile, Error>,
)
    requires
        extracted(path1, obj, r1),
        extracted(path2, obj, r2),
        path1 != path2,
        r1 is Ok,
    ensures
        r2 is Ok,
        r1->Ok_0.attribute_values() == r2->Ok_0.attribute_values(),
        !r1->Ok_0.eq_spec(&r2->Ok_0),
{
    if let Err(e2) = r2 {
        let k = choose|k: int| first_failure(obj, k) && failure_error(obj, identity_tags()[k], e2);
        assert(attribute_usable(obj, identity_tags()[k]));
    }
}

} // verus!
