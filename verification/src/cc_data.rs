//! Trusted declarations for the caption-payload collaborator, the
//! `cea708_types` crate.  The CDP envelope frames the caption payload but
//! does not interpret it: every call into the collaborator goes through one
//! of the wrappers below, and the verified code relies only on their
//! contracts.

use vstd::prelude::*;

use crate::ParserError;

verus! {

#[verifier::external_type_specification]
#[verifier::external_body]
pub struct ExCCDataParser(cea708_types::CCDataParser);

#[verifier::external_type_specification]
#[verifier::external_body]
pub struct ExCCDataWriter(cea708_types::CCDataWriter);

#[verifier::external_type_specification]
#[verifier::external_body]
pub struct ExDTVCCPacket(cea708_types::DTVCCPacket);

#[verifier::external_type_specification]
#[verifier::external_body]
pub struct ExCea608(cea708_types::Cea608);

/// Relies on cea708_types::CCDataParser::default: a fresh payload parser.
#[verifier::external_body]
pub(crate) fn cc_parser_default() -> cea708_types::CCDataParser {
    cea708_types::CCDataParser::default()
}

/// Relies on cea708_types::CCDataParser::handle_cea608: turns on collection
/// of CEA-608 byte pairs.
#[verifier::external_body]
pub(crate) fn cc_parser_handle_cea608(p: &mut cea708_types::CCDataParser) {
    p.handle_cea608()
}

/// Whether a `cc_data` buffer carries a CEA-608 byte pair after CEA-708
/// data: some triple whose first byte marks it valid (bit 2) and of a
/// CEA-608 type (bit 1 clear) follows a triple of a CEA-708 type (bit 1
/// set).  Triples are the 3-byte groups after the 2-byte header.
pub open spec fn cea608_after_cea708(d: Seq<u8>) -> bool {
    exists|i: int, j: int|
        0 <= i < j < (d.len() - 2) / 3 && (#[trigger] d[2 + 3 * i]) & 0x02 != 0 && (
        #[trigger] d[2 + 3 * j]) & 0x04 == 0x04 && d[2 + 3 * j] & 0x02 == 0
}

/// The ordering violation depends only on the triples and the buffer
/// length, not on the two header bytes.
pub proof fn lemma_cea608_after_cea708_same_triples(a: Seq<u8>, b: Seq<u8>)
    requires
        a.len() == b.len(),
        a.len() >= 2,
        a.skip(2) == b.skip(2),
    ensures
        cea608_after_cea708(a) == cea608_after_cea708(b),
{
    assert forall|k: int| 0 <= k && 2 + 3 * k < a.len() implies (#[trigger] a[2 + 3 * k]) == b[2
        + 3 * k] by {
        assert(a[2 + 3 * k] == a.skip(2)[3 * k]);
        assert(b[2 + 3 * k] == b.skip(2)[3 * k]);
    }
    if cea608_after_cea708(a) {
        let (i, j): (int, int) = choose|i: int, j: int|
            0 <= i < j < (a.len() - 2) / 3 && (#[trigger] a[2 + 3 * i]) & 0x02 != 0 && (
            #[trigger] a[2 + 3 * j]) & 0x04 == 0x04 && a[2 + 3 * j] & 0x02 == 0;
        assert(b[2 + 3 * i] == a[2 + 3 * i] && b[2 + 3 * j] == a[2 + 3 * j]);
        assert(cea608_after_cea708(b));
    }
    if cea608_after_cea708(b) {
        let (i, j): (int, int) = choose|i: int, j: int|
            0 <= i < j < (b.len() - 2) / 3 && (#[trigger] b[2 + 3 * i]) & 0x02 != 0 && (
            #[trigger] b[2 + 3 * j]) & 0x04 == 0x04 && b[2 + 3 * j] & 0x02 == 0;
        assert(a[2 + 3 * i] == b[2 + 3 * i] && a[2 + 3 * j] == b[2 + 3 * j]);
        assert(cea608_after_cea708(a));
    }
}

/// Relies on cea708_types::CCDataParser::push: consumes one `cc_data`
/// section.  It fails only with `LengthMismatch`, when the triple count in
/// the first byte's low five bits disagrees with the buffer length, or with
/// `Cea608AfterCea708`, when a valid CEA-608 triple follows CEA-708 data.
/// For a buffer whose length matches its count byte and whose process flag
/// (bit 6 of the first byte) is set, that ordering violation is the one
/// and only cause of failure.
#[verifier::external_body]
pub(crate) fn cc_parser_push(p: &mut cea708_types::CCDataParser, data: &Vec<u8>) -> (r: Result<
    (),
    ParserError,
>)
    ensures
        match r {
            Ok(_) => true,
            Err(ParserError::Cea608AfterCea708) => true,
            Err(ParserError::LengthMismatch { .. }) => data@.len() != 2 + 3 * ((data@[0]
                & 0x1f) as int),
            Err(_) => false,
        },
        data@.len() == 2 + 3 * ((data@[0] & 0x1f) as int) && data@[0] & 0x40 != 0 ==> ((
        r matches Err(_)) <==> cea608_after_cea708(data@)),
{
    match p.push(data.as_slice()) {
        Ok(()) => Ok(()),
        Err(cea708_types::ParserError::Cea608AfterCea708 { byte_pos: _ }) => Err(
            ParserError::Cea608AfterCea708,
        ),
        Err(cea708_types::ParserError::LengthMismatch { expected, actual }) => Err(
            ParserError::LengthMismatch { expected, actual },
        ),
    }
}

/// Relies on cea708_types::CCDataParser::pop_packet: drains one decoded
/// packet from the collaborator's queue, if any.
#[verifier::external_body]
pub(crate) fn cc_parser_pop_packet(p: &mut cea708_types::CCDataParser) -> Option<
    cea708_types::DTVCCPacket,
> {
    p.pop_packet()
}

/// Relies on cea708_types::CCDataParser::cea608: the CEA-608 byte pairs of
/// the most recently pushed section.
#[verifier::external_body]
pub(crate) fn cc_parser_cea608<'a>(p: &'a mut cea708_types::CCDataParser) -> Option<
    &'a [cea708_types::Cea608],
> {
    p.cea608()
}

/// Relies on cea708_types::CCDataWriter::default: a fresh payload writer.
#[verifier::external_body]
pub(crate) fn cc_writer_default() -> cea708_types::CCDataWriter {
    cea708_types::CCDataWriter::default()
}

/// Relies on cea708_types::CCDataWriter::set_output_padding: whether the
/// written CCP bitstream is padded up to the framerate's triple budget.
#[verifier::external_body]
pub(crate) fn cc_writer_set_output_padding(w: &mut cea708_types::CCDataWriter, v: bool) {
    w.set_output_padding(v)
}

/// Relies on cea708_types::CCDataWriter::set_output_cea608_padding: whether
/// padding CEA-608 byte pairs are written.
#[verifier::external_body]
pub(crate) fn cc_writer_set_output_cea608_padding(w: &mut cea708_types::CCDataWriter, v: bool) {
    w.set_output_cea608_padding(v)
}

/// Relies on cea708_types::CCDataWriter::push_packet: queues a packet for a
/// later write.
#[verifier::external_body]
pub(crate) fn cc_writer_push_packet(
    w: &mut cea708_types::CCDataWriter,
    packet: cea708_types::DTVCCPacket,
) {
    w.push_packet(packet)
}

/// Relies on cea708_types::CCDataWriter::push_cea608: queues a CEA-608 byte
/// pair for a later write.
#[verifier::external_body]
pub(crate) fn cc_writer_push_cea608(w: &mut cea708_types::CCDataWriter, pair: cea708_types::Cea608) {
    w.push_cea608(pair)
}

/// Relies on cea708_types::CCDataWriter::flush: clears all queued data.
#[verifier::external_body]
pub(crate) fn cc_writer_flush(w: &mut cea708_types::CCDataWriter) {
    w.flush()
}

/// The largest number of caption triples the collaborator writes per frame
/// at the given framerate: CEA-708's bit budget of 600 bytes per second,
/// rounded to the nearest whole triple.
pub open spec fn max_cc_count_spec(numer: u32, denom: u32) -> int {
    (600 * denom + numer / 2) / (numer as int)
}

/// Relies on cea708_types::CCDataWriter::write: emits a two-byte `cc_data`
/// header followed by whole three-byte triples, at most the framerate's
/// triple budget of them, with the header's reserved and process flags set.
/// All CEA-608 triples are emitted before any CEA-708 or padding triple,
/// so the output never carries CEA-608 data after CEA-708 data.  Writing
/// into a `Vec` cannot fail.
#[verifier::external_body]
pub(crate) fn cc_writer_write(w: &mut cea708_types::CCDataWriter, numer: u32, denom: u32) -> (r:
    Vec<u8>)
    requires
        numer >= 1,
        max_cc_count_spec(numer, denom) <= u32::MAX,
    ensures
        r@.len() >= 2,
        (r@.len() - 2) % 3 == 0,
        r@[0] & 0xc0 == 0xc0,
        (r@.len() - 2) / 3 <= max_cc_count_spec(numer, denom),
        !cea608_after_cea708(r@),
{
    let framerate = cea708_types::Framerate::new(numer, denom);
    let mut v = Vec::new();
    let _ = w.write(framerate, &mut v);
    v
}

} // verus!
