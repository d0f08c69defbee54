use cdp_types::svc::{DigitalServiceEntry, FieldOrService, ServiceEntry, ServiceInfo};
use cdp_types::{ParserError, WriterError};

static LANG_TAG: [u8; 3] = [b'e', b'n', b'g'];

fn test_service_data() -> Vec<u8> {
    vec![
        0x73, // magic
        0xd2, // start | change | complete | count
        0x80, // service_no
        LANG_TAG[0],
        LANG_TAG[1],
        LANG_TAG[2],
        0x7e, // is_digital | service_no
        0x3f, // easy reader | wide aspect_ratio
        0xff, // reserved
        0xe1,
        LANG_TAG[0],
        LANG_TAG[1],
        LANG_TAG[2],
        0xc1,
        0xff,
        0xff,
    ]
}

fn test_service_info() -> ServiceInfo {
    let mut info = ServiceInfo::default();
    info.set_start(true);
    info.set_complete(true);
    info.add_service(ServiceEntry::new(LANG_TAG, FieldOrService::Field(true))).unwrap();
    info.add_service(ServiceEntry::new(
        LANG_TAG,
        FieldOrService::Service(DigitalServiceEntry::new(1, true, true)),
    ))
    .unwrap();
    info
}

#[test]
fn parse_service_descriptor() {
    let data = test_service_data();
    let parsed = ServiceInfo::parse(&data).unwrap();
    assert_eq!(parsed, test_service_info());
}

#[test]
fn roundtrip_service_descriptor() {
    let service_info = test_service_info();
    let byte_len = service_info.byte_len();
    let mut data = vec![0; byte_len];
    let written = service_info.write_into_unchecked(&mut data);
    assert_eq!(written, byte_len);
    let service = ServiceInfo::parse(&data).unwrap();
    assert_eq!(service, service_info);
}

#[test]
fn write_service_descriptor_bytes() {
    // the writer always uses the small service-number encoding in the
    // entry header, so the parsed block from `test_service_data` (whose
    // second entry uses the large encoding 0xe1) serializes to 0x81
    let mut service_info = ServiceInfo::default();
    service_info.set_start(true);
    service_info.set_complete(true);
    service_info.add_service(ServiceEntry::new(LANG_TAG, FieldOrService::Field(true))).unwrap();
    service_info.add_service(ServiceEntry::new(
        LANG_TAG,
        FieldOrService::Service(DigitalServiceEntry::new(1, false, true)),
    ))
    .unwrap();
    let mut data = vec![];
    service_info.write(&mut data);
    let expected = vec![
        0x73, // magic
        0xd2, // start | complete | count
        0x80, // service number: CEA-608 field
        LANG_TAG[0],
        LANG_TAG[1],
        LANG_TAG[2],
        0x7e, // field 1
        0x3f,
        0xff,
        0x81, // service number 1
        LANG_TAG[0],
        LANG_TAG[1],
        LANG_TAG[2],
        0xc1, // digital service 1
        0x7f, // wide aspect ratio
        0xff,
    ];
    assert_eq!(data, expected);
}

#[test]
fn add_service_overflow() {
    let mut info = ServiceInfo::default();
    let lang_tag = [b'e', b'n', b'g'];
    for i in 0..15 {
        let entry = ServiceEntry::new(
            lang_tag,
            FieldOrService::Service(DigitalServiceEntry::new(i, false, false)),
        );
        info.add_service(entry).unwrap();
    }
    let entry = ServiceEntry::new(
        lang_tag,
        FieldOrService::Service(DigitalServiceEntry::new(1, false, false)),
    );
    assert_eq!(info.add_service(entry), Err(WriterError::WouldOverflow(1)));
}

#[test]
fn service_descriptor_too_short() {
    assert_eq!(
        ServiceInfo::parse(&[0x73]),
        Err(ParserError::LengthMismatch { expected: 2, actual: 1 })
    );
}

#[test]
fn service_descriptor_wrong_magic() {
    assert_eq!(ServiceInfo::parse(&[0x74, 0xd0]), Err(ParserError::WrongMagic));
}

#[test]
fn service_descriptor_count_mismatch() {
    // header advertises one entry but no entry bytes follow
    assert_eq!(
        ServiceInfo::parse(&[0x73, 0xd1]),
        Err(ParserError::LengthMismatch { expected: 9, actual: 2 })
    );
}

#[test]
fn service_descriptor_fixed_bits() {
    // bit 7 of the header byte must be set
    assert_eq!(ServiceInfo::parse(&[0x73, 0x52]), Err(ParserError::InvalidFixedBits));
    // bit 7 of an entry's service-number header byte must be set
    let mut data = test_service_data();
    data[2] = 0x00;
    assert_eq!(ServiceInfo::parse(&data), Err(ParserError::InvalidFixedBits));
    // the final reserved byte of an entry must be 0xff
    let mut data = test_service_data();
    data[8] = 0x00;
    assert_eq!(ServiceInfo::parse(&data), Err(ParserError::InvalidFixedBits));
    // bit 6 of an entry's fourth byte must be set
    let mut data = test_service_data();
    data[6] = 0x3e;
    assert_eq!(ServiceInfo::parse(&data), Err(ParserError::InvalidFixedBits));
}

#[test]
fn service_descriptor_number_mismatch() {
    // the outer header says service 1, the inner descriptor says service 2
    let data = vec![
        0x73, 0xd1, 0x81, LANG_TAG[0], LANG_TAG[1], LANG_TAG[2], 0xc2, 0xff, 0xff,
    ];
    assert_eq!(ServiceInfo::parse(&data), Err(ParserError::ServiceNumberMismatch));
}

#[test]
fn service_descriptor_invalid_service_number() {
    // a digital service entry with service number 0 is invalid
    let data = vec![
        0x73, 0xd1, 0x80, LANG_TAG[0], LANG_TAG[1], LANG_TAG[2], 0xc0, 0xff, 0xff,
    ];
    assert_eq!(ServiceInfo::parse(&data), Err(ParserError::InvalidServiceNumber));
}

#[test]
fn service_entry_accessors() {
    let entry = ServiceEntry::new(
        LANG_TAG,
        FieldOrService::Service(DigitalServiceEntry::new(5, true, false)),
    );
    assert_eq!(entry.language(), LANG_TAG);
    match entry.service() {
        FieldOrService::Service(digital) => {
            assert_eq!(digital.service_no(), 5);
            assert!(digital.easy_reader());
            assert!(!digital.wide_aspect_ratio());
        },
        FieldOrService::Field(_) => unreachable!(),
    }
}

#[test]
fn field2_entry_round_trip() {
    // a field-2 entry is written with service number 0 in the block
    // header, like a field-1 entry, and survives the round trip
    let mut info = ServiceInfo::default();
    info.set_start(true);
    info.add_service(ServiceEntry::new(LANG_TAG, FieldOrService::Field(false))).unwrap();
    let mut bytes = vec![];
    info.write(&mut bytes);
    let expected = vec![
        0x73, // magic
        0xc1, // start | count
        0x80, // service number 0: a CEA-608 field
        LANG_TAG[0],
        LANG_TAG[1],
        LANG_TAG[2],
        0x7f, // field 2
        0x3f,
        0xff,
    ];
    assert_eq!(bytes, expected);
    let parsed = ServiceInfo::parse(&bytes).unwrap();
    assert_eq!(parsed, info);
}

#[test]
fn service_info_set_change_sets_start() {
    let mut info = ServiceInfo::default();
    assert!(!info.is_start());
    assert!(!info.is_change());
    info.set_change(true);
    assert!(info.is_change());
    assert!(info.is_start());
    info.set_change(false);
    assert!(!info.is_change());
    assert!(info.is_start());
}

#[test]
fn service_info_clear_services() {
    let mut info = test_service_info();
    assert_eq!(info.services().len(), 2);
    info.clear_services();
    assert_eq!(info.services().len(), 0);
    assert_eq!(info.byte_len(), 2);
}
