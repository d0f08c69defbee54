use cdp_types::parser::CDPParser;
use cdp_types::svc::{DigitalServiceEntry, FieldOrService, ServiceEntry, ServiceInfo};
use cdp_types::writer::CDPWriter;
use cdp_types::{Framerate, TimeCode};
use cea708_types::{tables, Cea608, DTVCCPacket, Service};

fn latin_a_packet() -> DTVCCPacket {
    let mut packet = DTVCCPacket::new(0);
    let mut service = Service::new(1);
    service.push_code(&tables::Code::LatinCapitalA).unwrap();
    packet.push_service(service).unwrap();
    packet
}

#[test]
fn packet_write_cc_data() {
    // simple packet with a single service and single code, with a time code
    {
        let expected: [u8; 0x5A] = [
            0x96, 0x69, // magic
            0x5A, // cdp_len
            0x3f, // framerate
            0x80 | 0x40 | 0x02 | 0x01, // flags
            0x12, 0x34, // sequence counter
            0x71, // time code id
            0xc0 | 0x17, // hours
            0x80 | 0x59, // minutes
            0x80 | 0x57, // seconds
            0x80 | 0x18, // frames
            0x72, // cc_data id
            0xe0 | 0x18, // cc_count
            0xF8, 0x80, 0x80, 0xF9, 0x80, 0x80, 0xFF, 0x02, 0x21, 0xFE, 0x41, 0x00, 0xFA, 0x00,
            0x00, 0xFA, 0x00, 0x00, 0xFA, 0x00, 0x00, 0xFA, 0x00, 0x00, 0xFA, 0x00, 0x00, 0xFA,
            0x00, 0x00, 0xFA, 0x00, 0x00, 0xFA, 0x00, 0x00, 0xFA, 0x00, 0x00, 0xFA, 0x00, 0x00,
            0xFA, 0x00, 0x00, 0xFA, 0x00, 0x00, 0xFA, 0x00, 0x00, 0xFA, 0x00, 0x00, 0xFA, 0x00,
            0x00, 0xFA, 0x00, 0x00, 0xFA, 0x00, 0x00, 0xFA, 0x00, 0x00, 0xFA, 0x00, 0x00, 0xFA,
            0x00, 0x00, // cc padding
            0x74, // footer
            0x12, 0x34, // sequence counter
            0xD1, // checksum
        ];
        let mut writer = CDPWriter::new();
        writer.push_packet(latin_a_packet());
        writer.set_time_code(Some(TimeCode::new(17, 59, 57, 18, true, true)));
        writer.set_sequence_count(0x1234);
        let mut written = vec![];
        writer.write(Framerate::from_id(0x3).unwrap(), &mut written).unwrap();
        assert_eq!(&written, &expected);
    }
    // simple packet with a single service and single code, no time code
    {
        let expected: [u8; 0x55] = [
            0x96, 0x69, // magic
            0x55, // cdp_len
            0x3f, // framerate
            0x40 | 0x02 | 0x01, // flags
            0x34, 0x12, // sequence counter
            0x72, // cc_data id
            0xe0 | 0x18, // cc_count
            0xF8, 0x80, 0x80, 0xF9, 0x80, 0x80, 0xFF, 0x02, 0x21, 0xFE, 0x41, 0x00, 0xFA, 0x00,
            0x00, 0xFA, 0x00, 0x00, 0xFA, 0x00, 0x00, 0xFA, 0x00, 0x00, 0xFA, 0x00, 0x00, 0xFA,
            0x00, 0x00, 0xFA, 0x00, 0x00, 0xFA, 0x00, 0x00, 0xFA, 0x00, 0x00, 0xFA, 0x00, 0x00,
            0xFA, 0x00, 0x00, 0xFA, 0x00, 0x00, 0xFA, 0x00, 0x00, 0xFA, 0x00, 0x00, 0xFA, 0x00,
            0x00, 0xFA, 0x00, 0x00, 0xFA, 0x00, 0x00, 0xFA, 0x00, 0x00, 0xFA, 0x00, 0x00, 0xFA,
            0x00, 0x00, // cc padding
            0x74, // cdp footer
            0x34, 0x12, // sequence counter
            0xE6, // checksum
        ];
        let mut writer = CDPWriter::new();
        writer.push_packet(latin_a_packet());
        writer.set_time_code(None);
        writer.set_sequence_count(0x3412);
        let mut written = vec![];
        writer.write(Framerate::from_id(0x3).unwrap(), &mut written).unwrap();
        assert_eq!(&written, &expected);
    }
}

#[test]
fn packet_write_checksum_zero() {
    // the byte sum of every written packet is zero modulo 256
    let mut writer = CDPWriter::new();
    writer.push_packet(latin_a_packet());
    writer.push_cea608(Cea608::Field1(0x41, 0x80));
    writer.set_time_code(Some(TimeCode::new(1, 2, 3, 4, true, false)));
    writer.set_sequence_count(3);
    let mut service_info = ServiceInfo::default();
    service_info.set_start(true);
    service_info.set_complete(true);
    service_info.add_service(ServiceEntry::new([b'e', b'n', b'g'], FieldOrService::Field(true)))
        .unwrap();
    writer.set_service_info(Some(service_info));
    let mut written = vec![];
    writer.write(Framerate::from_id(0x4).unwrap(), &mut written).unwrap();
    let sum = written.iter().fold(0u8, |acc, b| acc.wrapping_add(*b));
    assert_eq!(sum, 0);
}

#[test]
fn write_then_parse_round_trip() {
    // what the writer produces, the parser accepts, and the envelope
    // fields and caption content come back unchanged
    let mut writer = CDPWriter::new();
    writer.push_packet(latin_a_packet());
    writer.set_time_code(Some(TimeCode::new(17, 59, 57, 18, true, true)));
    writer.set_sequence_count(0x1234);
    let mut service_info = ServiceInfo::default();
    service_info.set_start(true);
    service_info.set_complete(true);
    service_info.add_service(ServiceEntry::new(
        [b'e', b'n', b'g'],
        FieldOrService::Service(DigitalServiceEntry::new(1, false, true)),
    ))
    .unwrap();
    writer.set_service_info(Some(service_info.clone()));
    let mut written = vec![];
    writer.write(Framerate::from_id(0x3).unwrap(), &mut written).unwrap();

    let mut parser = CDPParser::new();
    parser.parse(&written).unwrap();
    assert_eq!(parser.sequence(), 0x1234);
    assert_eq!(parser.framerate(), Framerate::from_id(0x3));
    assert_eq!(parser.time_code(), Some(TimeCode::new(17, 59, 57, 18, true, true)));
    assert_eq!(parser.service_info(), Some(&service_info));
    let packet = parser.pop_packet().unwrap();
    assert_eq!(packet.sequence_no(), 0);
    let services = packet.services();
    assert_eq!(services.len(), 1);
    assert_eq!(services[0].number(), 1);
    assert_eq!(services[0].codes(), &[tables::Code::LatinCapitalA]);
}

#[test]
fn write_then_parse_field2_service_info() {
    // a pending service info with a field-2 entry survives the full
    // packet round trip
    let mut writer = CDPWriter::new();
    writer.set_sequence_count(0x0102);
    let mut service_info = ServiceInfo::default();
    service_info.set_complete(true);
    service_info.add_service(ServiceEntry::new([b'd', b'e', b'u'], FieldOrService::Field(false)))
        .unwrap();
    writer.set_service_info(Some(service_info.clone()));
    let mut written = vec![];
    writer.write(Framerate::from_id(0x8).unwrap(), &mut written).unwrap();

    let mut parser = CDPParser::new();
    parser.parse(&written).unwrap();
    assert_eq!(parser.sequence(), 0x0102);
    assert_eq!(parser.service_info(), Some(&service_info));
}

#[test]
fn writer_flush_clears_pending_state() {
    let mut writer = CDPWriter::new();
    writer.push_packet(latin_a_packet());
    writer.set_time_code(Some(TimeCode::new(1, 2, 3, 4, false, false)));
    writer.set_sequence_count(7);
    writer.flush();
    let mut written = vec![];
    writer.write(Framerate::from_id(0x3).unwrap(), &mut written).unwrap();
    // after the flush nothing is pending: no time code section, sequence 0
    let mut parser = CDPParser::new();
    parser.parse(&written).unwrap();
    assert_eq!(parser.time_code(), None);
    assert_eq!(parser.sequence(), 0);
    assert!(parser.pop_packet().is_none());
}

#[test]
fn writer_time_code_stays_pending() {
    // the pending time code is not cleared by a write: two consecutive
    // packets carry the same time code until it is reset explicitly
    let mut writer = CDPWriter::new();
    writer.set_time_code(Some(TimeCode::new(5, 6, 7, 8, false, false)));
    let framerate = Framerate::from_id(0x5).unwrap();
    let mut first = vec![];
    writer.write(framerate, &mut first).unwrap();
    let mut second = vec![];
    writer.write(framerate, &mut second).unwrap();
    assert_eq!(first, second);
    let mut parser = CDPParser::new();
    parser.parse(&first).unwrap();
    assert_eq!(parser.time_code(), Some(TimeCode::new(5, 6, 7, 8, false, false)));
}
