use cdp_types::parser::CDPParser;
use cdp_types::svc::FieldOrService;
use cdp_types::{Framerate, ParserError, TimeCode};
use cea708_types::{tables, Cea608};

fn packet_with_time_code_and_cc_data() -> Vec<u8> {
    vec![
        0x96, // magic
        0x69,
        0x18,               // cdp_len
        0x3f,               // framerate
        0x80 | 0x40 | 0x01, // flags
        0x12,               // sequence counter
        0x34,
        0x71,        // time code id
        0xc0 | 0x17, // hours
        0x80 | 0x59, // minutes
        0x80 | 0x57, // seconds
        0x80 | 0x18, // frames
        0x72,        // cc_data id
        0xe0 | 0x02, // cc_count
        0xFF,
        0x02,
        0x21,
        0xFE,
        0x41,
        0x00,
        0x74, // cdp footer
        0x12,
        0x34,
        0xA4, // checksum
    ]
}

fn expected_time_code() -> TimeCode {
    TimeCode::new(17, 59, 57, 18, true, true)
}

fn assert_single_packet_latin_a(parser: &mut CDPParser) {
    let packet = parser.pop_packet().unwrap();
    assert_eq!(packet.sequence_no(), 0);
    let services = packet.services();
    assert_eq!(services.len(), 1);
    assert_eq!(services[0].number(), 1);
    assert_eq!(services[0].codes(), &[tables::Code::LatinCapitalA]);
    assert!(parser.pop_packet().is_none());
}

#[test]
fn cdp_parse() {
    // simple packet with cc_data and a time code
    {
        let mut parser = CDPParser::new();
        parser.parse(&packet_with_time_code_and_cc_data()).unwrap();
        assert_eq!(parser.time_code(), Some(expected_time_code()));
        assert_eq!(parser.sequence(), 0x1234);
        assert_eq!(parser.framerate(), Framerate::from_id(0x3));
        assert_single_packet_latin_a(&mut parser);
        assert_eq!(parser.cea608().unwrap_or(&[]), &[]);
    }
    // simple packet with no time code
    {
        let data = [
            0x96, // magic
            0x69,
            0x13,        // cdp_len
            0x3f,        // framerate
            0x40 | 0x01, // flags
            0x12,        // sequence counter
            0x34,
            0x72,        // cc_data id
            0xe0 | 0x02, // cc_count
            0xFF,
            0x02,
            0x21,
            0xFE,
            0x41,
            0x00,
            0x74, // cdp footer
            0x12,
            0x34,
            0xB9, // checksum
        ];
        let mut parser = CDPParser::new();
        parser.parse(&data).unwrap();
        assert_eq!(parser.time_code(), None);
        assert_eq!(parser.sequence(), 0x1234);
        assert_eq!(parser.framerate(), Framerate::from_id(0x3));
        assert_single_packet_latin_a(&mut parser);
        assert_eq!(parser.cea608().unwrap_or(&[]), &[]);
    }
    // simple packet with svc_info
    {
        let data = [
            0x96, // magic
            0x69,
            0x14,                      // cdp_len
            0x3f,                      // framerate
            0x20 | 0x10 | 0x04 | 0x01, // flags
            0x12,                      // sequence counter
            0x34,
            0x73,                      // svc_info id
            0x80 | 0x40 | 0x10 | 0x01, // reserved | start | change | complete | count
            0x80,                      // reserved | service number
            b'e',
            b'n',
            b'g',
            0x40 | 0x3e, // is_digital | reserved | field/service
            0x3f,        // reader | wide | reserved
            0xff,        // reserved
            0x74,        // cdp footer
            0x12,
            0x34,
            0xbf, // checksum
        ];
        let mut parser = CDPParser::new();
        parser.parse(&data).unwrap();
        assert_eq!(parser.time_code(), None);
        assert_eq!(parser.sequence(), 0x1234);
        assert_eq!(parser.framerate(), Framerate::from_id(0x3));
        assert!(parser.pop_packet().is_none());
        assert_eq!(parser.cea608().unwrap_or(&[]), &[]);
    }
    // simple packet with future section
    {
        let data = [
            0x96, // magic
            0x69, 0x0F, // cdp_len
            0x3f, // framerate
            0x01, // flags
            0x12, // sequence counter
            0x34, 0x75, // future section id
            0x02, 0x45, 0x67, 0x74, // cdp footer
            0x12, 0x34, 0x8F, // checksum
        ];
        let mut parser = CDPParser::new();
        parser.parse(&data).unwrap();
        assert_eq!(parser.time_code(), None);
        assert_eq!(parser.sequence(), 0x1234);
        assert_eq!(parser.framerate(), Framerate::from_id(0x3));
        assert!(parser.pop_packet().is_none());
        assert_eq!(parser.cea608().unwrap_or(&[]), &[]);
    }
    // simple packet with CEA-608 data
    {
        let data = [
            0x96, // magic
            0x69,
            0x13,        // cdp_len
            0x3f,        // framerate
            0x40 | 0x01, // flags
            0x12,        // sequence counter
            0x34,
            0x72,        // cc_data id
            0xe0 | 0x02, // cc_count
            0xFC,
            0x20,
            0x41,
            0xFD,
            0x42,
            0x80,
            0x74, // cdp footer
            0x12,
            0x34,
            0xFE, // checksum
        ];
        let mut parser = CDPParser::new();
        parser.parse(&data).unwrap();
        assert_eq!(parser.time_code(), None);
        assert_eq!(parser.sequence(), 0x1234);
        assert_eq!(parser.framerate(), Framerate::from_id(0x3));
        assert!(parser.pop_packet().is_none());
        assert_eq!(
            parser.cea608().unwrap_or(&[]),
            &[Cea608::Field1(0x20, 0x41), Cea608::Field2(0x42, 0x80)]
        );
    }
}

#[test]
fn cdp_parse_full_packet() {
    let data = [
        0x96, 0x69, // magic
        0x27, // cdp_len
        0x3f, // framerate
        0x80 | 0x40 | 0x20 | 0x10 | 0x04 | 0x02 | 0x01, // flags
        0x12, 0x34, // sequence counter
        0x71, // time code id
        0xc0 | 0x17, // hours
        0x80 | 0x59, // minutes
        0x80 | 0x57, // seconds
        0x80 | 0x18, // frames
        0x72, // cc_data id
        0xe0 | 0x04, // cc_count
        0xFC, 0x20, 0x41, // CEA608 field 1
        0xFD, 0x42, 0x43, // CEA608 field 2
        0xFF, 0x02, 0x21, // start CEA708 data
        0xFE, 0x41, 0x00,
        0x73, // svc_info id
        0x80 | 0x40 | 0x10 | 0x01, // reserved | start | change | complete | count
        0x80, // reserved | service number
        b'e', b'n', b'g', // language
        0x40 | 0x3e, // is_digital | reserved | field/service
        0x3f, // reader | wide | reserved
        0xff, // reserved
        0x74, // cdp footer
        0x12, 0x34, // sequence counter
        0xc4, // checksum
    ];
    let mut parser = CDPParser::new();
    parser.parse(&data).unwrap();

    assert_eq!(parser.sequence(), 0x1234);
    assert_eq!(parser.framerate(), Framerate::from_id(0x3));

    let service_info = parser.service_info().unwrap();
    assert!(service_info.is_start());
    assert!(!service_info.is_change());
    assert!(service_info.is_complete());
    let entries = service_info.services();
    assert_eq!(entries[0].language(), [b'e', b'n', b'g']);
    let FieldOrService::Field(field) = entries[0].service() else {
        unreachable!();
    };
    assert!(field);

    let time_code = parser.time_code().unwrap();
    assert_eq!(time_code.hours(), 17);
    assert_eq!(time_code.minutes(), 59);
    assert_eq!(time_code.seconds(), 57);
    assert_eq!(time_code.frames(), 18);
    assert!(time_code.field());
    assert!(time_code.drop_frame());

    let packet = parser.pop_packet().unwrap();
    assert_eq!(packet.sequence_no(), 0);

    let cea608 = parser.cea608().unwrap();
    assert_eq!(cea608, &[Cea608::Field1(0x20, 0x41), Cea608::Field2(0x42, 0x43)]);
}

#[test]
fn framerate_lookup() {
    assert!(Framerate::from_id(0x0).is_none());
    assert!(Framerate::from_id(0x9).is_none());
    let fr = Framerate::from_id(0x3).unwrap();
    assert_eq!(fr.id(), 0x3);
    assert_eq!(fr.numer(), 25);
    assert_eq!(fr.denom(), 1);
    // the lookup is a pure function: a second call returns the same entry
    assert_eq!(Framerate::from_id(0x3), Framerate::from_id(0x3));
    let fr8 = Framerate::from_id(0x8).unwrap();
    assert_eq!(fr8.id(), 0x8);
    assert_eq!(fr8.numer(), 60);
    assert_eq!(fr8.denom(), 1);
}

#[test]
fn time_code_accessors() {
    let tc = TimeCode::new(1, 2, 3, 4, true, false);
    assert_eq!(tc.hours(), 1);
    assert_eq!(tc.minutes(), 2);
    assert_eq!(tc.seconds(), 3);
    assert_eq!(tc.frames(), 4);
    assert!(tc.field());
    assert!(!tc.drop_frame());
}

#[test]
fn cdp_parse_too_short() {
    let mut parser = CDPParser::new();
    assert_eq!(
        parser.parse(&[0x96, 0x69, 0x03]),
        Err(ParserError::LengthMismatch { expected: 11, actual: 3 })
    );
}

#[test]
fn cdp_parse_wrong_magic() {
    let mut data = packet_with_time_code_and_cc_data();
    data[0] = 0x97;
    let mut parser = CDPParser::new();
    assert_eq!(parser.parse(&data), Err(ParserError::WrongMagic));
}

#[test]
fn cdp_parse_advertised_length_mismatch() {
    let mut data = packet_with_time_code_and_cc_data();
    data[2] = 0x19;
    let mut parser = CDPParser::new();
    assert_eq!(
        parser.parse(&data),
        Err(ParserError::LengthMismatch { expected: 0x19, actual: 0x18 })
    );
}

#[test]
fn cdp_parse_unknown_framerate() {
    let mut data = packet_with_time_code_and_cc_data();
    data[3] = 0x0f;
    let mut parser = CDPParser::new();
    assert_eq!(parser.parse(&data), Err(ParserError::UnknownFramerate));
    data[3] = 0x9f;
    assert_eq!(parser.parse(&data), Err(ParserError::UnknownFramerate));
}

#[test]
fn cdp_parse_fixed_bit_flips() {
    let mut parser = CDPParser::new();
    // hours byte: top two bits must be 11
    let mut data = packet_with_time_code_and_cc_data();
    data[8] = 0x80 | 0x17;
    assert_eq!(parser.parse(&data), Err(ParserError::InvalidFixedBits));
    // minutes byte: top bit must be 1
    let mut data = packet_with_time_code_and_cc_data();
    data[9] = 0x59;
    assert_eq!(parser.parse(&data), Err(ParserError::InvalidFixedBits));
    // frames byte: bit 6 must be 0
    let mut data = packet_with_time_code_and_cc_data();
    data[11] = 0x80 | 0x40 | 0x18;
    assert_eq!(parser.parse(&data), Err(ParserError::InvalidFixedBits));
    // cc_data count byte: top three bits must be 111
    let mut data = packet_with_time_code_and_cc_data();
    data[13] = 0xc0 | 0x02;
    assert_eq!(parser.parse(&data), Err(ParserError::InvalidFixedBits));
    // the failed parses clear the committed framerate
    assert_eq!(parser.framerate(), None);
    assert_eq!(parser.time_code(), None);
    assert_eq!(parser.sequence(), 0);
}

#[test]
fn cdp_parse_sequence_count_mismatch() {
    let mut data = packet_with_time_code_and_cc_data();
    data[21] = 0x43;
    let mut parser = CDPParser::new();
    assert_eq!(parser.parse(&data), Err(ParserError::SequenceCountMismatch));
}

#[test]
fn cdp_parse_service_flags_mismatch() {
    // the svc_info packet from cdp_parse, with the header's change bit set
    // while the block's change bit stays clear
    let data = [
        0x96, 0x69, 0x14, 0x3f,
        0x20 | 0x10 | 0x08 | 0x04 | 0x01, // flags: start | change | complete
        0x12, 0x34,
        0x73,
        0x80 | 0x40 | 0x10 | 0x01, // block: start | complete
        0x80,
        b'e', b'n', b'g',
        0x40 | 0x3e,
        0x3f,
        0xff,
        0x74,
        0x12, 0x34,
        0xb7, // checksum
    ];
    let mut parser = CDPParser::new();
    assert_eq!(parser.parse(&data), Err(ParserError::ServiceFlagsMismatched));
}

#[test]
fn cdp_parse_checksum_failed() {
    let mut data = packet_with_time_code_and_cc_data();
    data[23] = 0xA5;
    let mut parser = CDPParser::new();
    assert_eq!(parser.parse(&data), Err(ParserError::ChecksumFailed));
}

#[test]
fn cdp_parse_future_section_matches_plain_packet() {
    // the same header fields with and without an interposed future section
    let with_future = [
        0x96, 0x69, 0x0F, 0x3f, 0x01, 0x12, 0x34, // header
        0x75, 0x02, 0x45, 0x67, // future section: id 0x75, 2 payload bytes
        0x74, 0x12, 0x34, 0x8F, // footer
    ];
    let without_future = [
        0x96, 0x69, 0x0B, 0x3f, 0x01, 0x12, 0x34, // header
        0x74, 0x12, 0x34, 0xB6, // footer
    ];
    let mut parser = CDPParser::new();
    parser.parse(&with_future).unwrap();
    let seq_a = parser.sequence();
    let fr_a = parser.framerate();
    let tc_a = parser.time_code();
    parser.parse(&without_future).unwrap();
    assert_eq!(parser.sequence(), seq_a);
    assert_eq!(parser.framerate(), fr_a);
    assert_eq!(parser.time_code(), tc_a);
}

#[test]
fn cdp_parse_future_section_bad_id() {
    // a section id below the future-section range is rejected
    let data = [
        0x96, 0x69, 0x0F, 0x3f, 0x01, 0x12, 0x34, 0x70, 0x02, 0x45, 0x67, 0x74, 0x12, 0x34,
        0x94,
    ];
    let mut parser = CDPParser::new();
    assert_eq!(parser.parse(&data), Err(ParserError::WrongMagic));
}

#[test]
fn cdp_parse_cea608_after_cea708() {
    // a structurally valid envelope whose cc_data carries a CEA-608 pair
    // after CEA-708 data: the payload collaborator rejects it
    let data = [
        0x96, 0x69, 0x16, 0x3f, 0x41, 0x12, 0x34, // header
        0x72, 0xe0 | 0x03, // cc_data id and count
        0xFF, 0x02, 0x21, // start CEA708 data
        0xFE, 0x41, 0x00, // CEA708 continued
        0xFC, 0x20, 0x41, // CEA608 field 1, out of order
        0x74, 0x12, 0x34, 0x58, // footer
    ];
    let mut parser = CDPParser::new();
    assert_eq!(parser.parse(&data), Err(ParserError::Cea608AfterCea708));
    // the envelope fields are not committed on a payload rejection
    assert_eq!(parser.framerate(), None);
    assert_eq!(parser.sequence(), 0);
}

#[test]
fn cdp_parser_flush_clears_state() {
    let mut parser = CDPParser::new();
    parser.parse(&packet_with_time_code_and_cc_data()).unwrap();
    assert!(parser.framerate().is_some());
    parser.flush();
    assert_eq!(parser.framerate(), None);
    assert_eq!(parser.time_code(), None);
    assert_eq!(parser.sequence(), 0);
    assert!(parser.service_info().is_none());
    assert!(parser.pop_packet().is_none());
}

#[test]
fn cdp_parse_failure_keeps_previous_service_info() {
    let svc_packet = [
        0x96, 0x69, 0x14, 0x3f, 0x20 | 0x10 | 0x04 | 0x01, 0x12, 0x34, 0x73,
        0x80 | 0x40 | 0x10 | 0x01, 0x80, b'e', b'n', b'g', 0x40 | 0x3e, 0x3f, 0xff, 0x74, 0x12,
        0x34, 0xbf,
    ];
    let mut parser = CDPParser::new();
    parser.parse(&svc_packet).unwrap();
    assert!(parser.service_info().is_some());
    // a failed parse clears time code, framerate and sequence, but the
    // committed service info keeps its previous value
    let mut bad = packet_with_time_code_and_cc_data();
    bad[23] = 0x00;
    assert_eq!(parser.parse(&bad), Err(ParserError::ChecksumFailed));
    assert!(parser.service_info().is_some());
    assert_eq!(parser.framerate(), None);
}
