use dicom::object::mem::InMemElement;
use dicom::object::{FileDicomObject, FileMetaTableBuilder, InMemDicomObject, Tag};
use dicom_identity::identity::identity_tag;
use dicom_identity::{identity_from_object, identity_from_opened, read_dicom_file, DicomFile, Error};

type Element = InMemElement;

const EXPLICIT_VR_LITTLE_ENDIAN: &str = "1.2.840.10008.1.2.1";
const RT_PLAN_STORAGE: &str = "1.2.840.10008.5.1.4.1.1.481.5";

fn text_element(group: u16, element: u16, vr: dicom::core::VR, text: &str) -> Element {
    Element::new(Tag(group, element), vr, dicom::core::PrimitiveValue::from(text))
}

fn rt_plan_elements() -> Vec<Element> {
    vec![
        text_element(0x0008, 0x0016, dicom::core::VR::UI, RT_PLAN_STORAGE),
        text_element(0x0008, 0x0018, dicom::core::VR::UI, "1.2.3.4"),
        text_element(0x0008, 0x0060, dicom::core::VR::CS, "RTPLAN"),
        text_element(0x0010, 0x0020, dicom::core::VR::LO, "P001"),
        text_element(0x0010, 0x0010, dicom::core::VR::PN, "Doe^John"),
        text_element(0x0020, 0x0052, dicom::core::VR::UI, "1.2.3.5"),
    ]
}

fn object_of(elements: Vec<Element>) -> FileDicomObject<InMemDicomObject> {
    InMemDicomObject::from_element_iter(elements)
        .with_meta(
            FileMetaTableBuilder::new()
                .transfer_syntax(EXPLICIT_VR_LITTLE_ENDIAN)
                .media_storage_sop_class_uid(RT_PLAN_STORAGE)
                .media_storage_sop_instance_uid("1.2.3.4"),
        )
        .unwrap()
}

fn rt_plan_object() -> FileDicomObject<InMemDicomObject> {
    object_of(rt_plan_elements())
}

fn without(index: usize) -> FileDicomObject<InMemDicomObject> {
    let mut obj = rt_plan_object();
    let (group, element) = identity_tag(index);
    assert!(obj.remove_element(Tag(group, element)));
    obj
}

fn replaced(index: usize, elem: Element) -> FileDicomObject<InMemDicomObject> {
    let mut elements = rt_plan_elements();
    elements[index] = elem;
    object_of(elements)
}

fn assert_rt_plan(record: &DicomFile, path: &str) {
    assert_eq!(record.path, path);
    assert_eq!(record.sop_class_uid, RT_PLAN_STORAGE);
    assert_eq!(record.sop_instance_uid, "1.2.3.4");
    assert_eq!(record.modality, "RTPLAN");
    assert_eq!(record.patient_id, "P001");
    assert_eq!(record.patient_name, "Doe^John");
    assert_eq!(record.frame_of_reference_uid, "1.2.3.5");
}

#[test]
fn rt_plan_scenario_gives_the_six_values_and_the_path() {
    let record = identity_from_object("plans/rp_plan.dcm", &rt_plan_object()).unwrap();
    assert_rt_plan(&record, "plans/rp_plan.dcm");
}

#[test]
fn values_are_trimmed_of_padding() {
    let obj = replaced(3, text_element(0x0010, 0x0020, dicom::core::VR::LO, "P001 "));
    let record = identity_from_object("a.dcm", &obj).unwrap();
    assert_eq!(record.patient_id, "P001");
    let obj = replaced(0, text_element(0x0008, 0x0016, dicom::core::VR::UI, "1.2.840.10008.5.1.4.1.1.481.5\0"));
    let record = identity_from_object("a.dcm", &obj).unwrap();
    assert_eq!(record.sop_class_uid, RT_PLAN_STORAGE);
}

#[test]
fn multi_valued_attribute_is_joined_with_backslash() {
    let multi = Element::new(
        Tag(0x0010, 0x0010),
        dicom::core::VR::PN,
        dicom::core::PrimitiveValue::Strs(["Doe^John".to_string(), "Roe^Jane".to_string()].into_iter().collect()),
    );
    let record = identity_from_object("a.dcm", &replaced(4, multi)).unwrap();
    assert_eq!(record.patient_name, "Doe^John\\Roe^Jane");
}

#[test]
fn each_missing_attribute_gives_an_access_error() {
    for index in 0..6 {
        let result = identity_from_object("a.dcm", &without(index));
        assert!(matches!(result, Err(Error::DicomAccessError(_))), "attribute {}", index);
    }
}

#[test]
fn sequence_value_gives_a_conversion_error() {
    let sequence = Element::new(
        Tag(0x0008, 0x0060),
        dicom::core::VR::SQ,
        dicom::core::value::DataSetSequence::from(vec![InMemDicomObject::new_empty()]),
    );
    let result = identity_from_object("a.dcm", &replaced(2, sequence));
    assert!(matches!(result, Err(Error::DicomConvertValueError(_))));
}

#[test]
fn empty_value_gives_an_empty_value_error() {
    let empty = Element::new(Tag(0x0010, 0x0020), dicom::core::VR::LO, dicom::core::PrimitiveValue::Empty);
    let result = identity_from_object("a.dcm", &replaced(3, empty));
    assert!(matches!(result, Err(Error::DicomEmptyValue(0x0010, 0x0020))));
    let blank = text_element(0x0010, 0x0010, dicom::core::VR::PN, "  ");
    let result = identity_from_object("a.dcm", &replaced(4, blank));
    assert!(matches!(result, Err(Error::DicomEmptyValue(0x0010, 0x0010))));
}

#[test]
fn first_failing_attribute_decides_the_error() {
    let sequence = Element::new(
        Tag(0x0008, 0x0060),
        dicom::core::VR::SQ,
        dicom::core::value::DataSetSequence::from(vec![InMemDicomObject::new_empty()]),
    );
    let mut obj = replaced(2, sequence);
    assert!(obj.remove_element(Tag(0x0010, 0x0020)));
    let result = identity_from_object("a.dcm", &obj);
    assert!(matches!(result, Err(Error::DicomConvertValueError(_))));
}

#[test]
fn same_object_at_two_paths_gives_unequal_records() {
    let obj = rt_plan_object();
    let first = identity_from_object("one/rp.dcm", &obj).unwrap();
    let second = identity_from_object("two/rp.dcm", &obj).unwrap();
    assert_ne!(first, second);
    assert_eq!(first.sop_class_uid, second.sop_class_uid);
    assert_eq!(first.sop_instance_uid, second.sop_instance_uid);
    assert_eq!(first.modality, second.modality);
    assert_eq!(first.patient_id, second.patient_id);
    assert_eq!(first.patient_name, second.patient_name);
    assert_eq!(first.frame_of_reference_uid, second.frame_of_reference_uid);
}

#[test]
fn extracting_twice_gives_equal_records() {
    let obj = rt_plan_object();
    let first = identity_from_object("rp.dcm", &obj).unwrap();
    let second = identity_from_object("rp.dcm", &obj).unwrap();
    assert_eq!(first, second);
    assert_eq!(first.clone(), second);
}

#[test]
fn missing_file_gives_a_read_error() {
    let result = read_dicom_file("no/such/directory/rp_missing.dcm");
    assert!(matches!(result, Err(Error::DicomReadError(_))));
}

#[test]
fn non_dicom_file_gives_a_read_error() {
    let result = read_dicom_file("Cargo.toml");
    assert!(matches!(result, Err(Error::DicomReadError(_))));
}

#[test]
fn file_written_to_disk_is_read_back() {
    let path = "/tmp/dicom_identity_rp_roundtrip.dcm";
    rt_plan_object().write_to_file(path).unwrap();
    let first = read_dicom_file(path).unwrap();
    let second = read_dicom_file(path).unwrap();
    assert_rt_plan(&first, path);
    assert_eq!(first, second);
}

#[test]
fn identity_tags_follow_the_standard_dictionary() {
    let tags: Vec<(u16, u16)> = (0..6).map(identity_tag).collect();
    assert_eq!(
        tags,
        vec![
            (0x0008, 0x0016),
            (0x0008, 0x0018),
            (0x0008, 0x0060),
            (0x0010, 0x0020),
            (0x0010, 0x0010),
            (0x0020, 0x0052),
        ]
    );
    assert_eq!(Tag(0x0008, 0x0016), dicom::dictionary_std::tags::SOP_CLASS_UID);
    assert_eq!(Tag(0x0020, 0x0052), dicom::dictionary_std::tags::FRAME_OF_REFERENCE_UID);
}

#[test]
fn missing_attribute_after_an_empty_one_gives_an_access_error() {
    let empty = Element::new(Tag(0x0008, 0x0060), dicom::core::VR::CS, dicom::core::PrimitiveValue::Empty);
    let mut obj = replaced(2, empty);
    assert!(obj.remove_element(Tag(0x0020, 0x0052)));
    let result = identity_from_object("a.dcm", &obj);
    assert!(matches!(result, Err(Error::DicomAccessError(_))));
}

#[test]
fn unconvertible_attribute_after_an_empty_one_gives_a_conversion_error() {
    let mut elements = rt_plan_elements();
    elements[2] = Element::new(Tag(0x0008, 0x0060), dicom::core::VR::CS, dicom::core::PrimitiveValue::Empty);
    elements[4] = Element::new(
        Tag(0x0010, 0x0010),
        dicom::core::VR::SQ,
        dicom::core::value::DataSetSequence::from(vec![InMemDicomObject::new_empty()]),
    );
    let result = identity_from_object("a.dcm", &object_of(elements));
    assert!(matches!(result, Err(Error::DicomConvertValueError(_))));
}

#[test]
fn first_empty_attribute_is_reported_when_all_are_readable() {
    let mut elements = rt_plan_elements();
    elements[3] = Element::new(Tag(0x0010, 0x0020), dicom::core::VR::LO, dicom::core::PrimitiveValue::Empty);
    elements[5] = Element::new(Tag(0x0020, 0x0052), dicom::core::VR::UI, dicom::core::PrimitiveValue::Empty);
    let result = identity_from_object("a.dcm", &object_of(elements));
    assert!(matches!(result, Err(Error::DicomEmptyValue(0x0010, 0x0020))));
}

#[test]
fn failed_open_gives_its_read_error() {
    let opened = dicom::object::open_file("no/such/directory/rp_missing.dcm");
    assert!(opened.is_err());
    let result = identity_from_opened("no/such/directory/rp_missing.dcm", opened);
    assert!(matches!(result, Err(Error::DicomReadError(dicom::object::ReadError::OpenFile { .. }))));
}

#[test]
fn opened_object_gives_its_identity() {
    let record = identity_from_opened("rp.dcm", Ok(rt_plan_object())).unwrap();
    assert_rt_plan(&record, "rp.dcm");
}

#[test]
fn default_record_is_empty() {
    let record = DicomFile::default();
    assert_eq!(record.path, "");
    assert_eq!(record.sop_class_uid, "");
    assert_eq!(record.sop_instance_uid, "");
    assert_eq!(record.modality, "");
    assert_eq!(record.patient_id, "");
    assert_eq!(record.patient_name, "");
    assert_eq!(record.frame_of_reference_uid, "");
}

#[test]
fn outside_errors_convert_into_their_variants() {
    let read = dicom::object::open_file("no/such/directory/rp_missing.dcm").unwrap_err();
    assert!(matches!(Error::from(read), Error::DicomReadError(_)));
    let access = rt_plan_object().element(Tag(0x0018, 0x0015)).unwrap_err();
    assert!(matches!(Error::from(access), Error::DicomAccessError(_)));
    let sequence = Element::new(
        Tag(0x0008, 0x0060),
        dicom::core::VR::SQ,
        dicom::core::value::DataSetSequence::from(vec![InMemDicomObject::new_empty()]),
    );
    let convert = sequence.to_str().unwrap_err();
    assert!(matches!(Error::from(convert), Error::DicomConvertValueError(_)));
}
