//! The CDP envelope parser: a session object that consumes one complete
//! packet per call, validates every field of the envelope, and commits the
//! parsed state only when the whole packet checks out.

use vstd::prelude::*;

use crate::cc_data::{
    cc_parser_cea608, cc_parser_default, cc_parser_handle_cea608, cc_parser_pop_packet,
    cc_parser_push, cea608_after_cea708,
};
use crate::svc::{parse_service_info, ServiceInfo, ServiceInfoView};
use crate::{
    bit_set, checksum_byte, flags_from_byte, framerate_from_id, lemma_sum_mod_256_take,
    lemma_u8_mask_bounds, opt_view, sum_mod_256, Flags, Framerate, FramerateView, ParserError,
    TimeCode, TimeCodeView,
};

verus! {

/// Everything a single CDP packet carries: the fields committed by a
/// successful parse, together with the reassembled `cc_data` buffer handed
/// to the caption-payload collaborator.
pub struct CdpFrame {
    pub framerate: FramerateView,
    pub sequence: u16,
    pub time_code: Option<TimeCodeView>,
    pub cc_data: Option<Seq<u8>>,
    pub service_info: Option<ServiceInfoView>,
}

/// The parse of the 4 bytes following the time code section id: fixed bits,
/// then binary-coded-decimal digit pairs for hours, minutes, seconds and
/// frames, with the field and drop-frame flags in the top bits.
pub open spec fn parse_time_code_bytes(b: Seq<u8>) -> Result<TimeCodeView, ParserError> {
    if b[0] & 0xc0 != 0xc0 {
        Err(ParserError::InvalidFixedBits)
    } else if b[1] & 0x80 != 0x80 {
        Err(ParserError::InvalidFixedBits)
    } else if b[3] & 0x40 != 0x00 {
        Err(ParserError::InvalidFixedBits)
    } else {
        Ok(
            TimeCodeView {
                hours: (((b[0] & 0x30) >> 4) * 10 + (b[0] & 0x0f)) as u8,
                minutes: (((b[1] & 0x70) >> 4) * 10 + (b[1] & 0x0f)) as u8,
                seconds: (((b[2] & 0x70) >> 4) * 10 + (b[2] & 0x0f)) as u8,
                frames: (((b[3] & 0x30) >> 4) * 10 + (b[3] & 0x0f)) as u8,
                field: bit_set(b[2], 0x80),
                drop_frame: bit_set(b[3], 0x80),
            },
        )
    }
}

/// Skipping of future sections: from index `i`, sections with ids in
/// [0x75, 0xEF] are skipped over until the footer id 0x74 is found, whose
/// index is returned.
pub open spec fn skip_future_sections(d: Seq<u8>, i: int) -> Result<int, ParserError>
    decreases d.len() - i,
    when 0 <= i && i + 2 <= d.len()
{
    if d[i] == 0x74 {
        Ok(i)
    } else if d[i] < 0x75 || d[i] > 0xef {
        Err(ParserError::WrongMagic)
    } else if d.len() < i + 1 + d[i + 1] {
        Err(
            ParserError::LengthMismatch {
                expected: (i + 1 + d[i + 1]) as usize,
                actual: d.len() as usize,
            },
        )
    } else if d.len() < i + 2 + d[i + 1] + 2 {
        Err(
            ParserError::LengthMismatch {
                expected: (i + 2 + d[i + 1] + 2) as usize,
                actual: d.len() as usize,
            },
        )
    } else {
        skip_future_sections(d, i + 2 + d[i + 1])
    }
}

/// The parse of a CDP from the footer search onwards: any future sections
/// are skipped, then the footer id, the footer's copy of the sequence count,
/// and the packet checksum are checked.
pub open spec fn parse_footer_section(
    d: Seq<u8>,
    i: int,
    fr: FramerateView,
    seq_count: u16,
    tc: Option<TimeCodeView>,
    cc: Option<Seq<u8>>,
    svc: Option<ServiceInfoView>,
) -> Result<CdpFrame, ParserError> {
    if d.len() < i + 2 {
        Err(ParserError::LengthMismatch { expected: (i + 2) as usize, actual: d.len() as usize })
    } else {
        match skip_future_sections(d, i) {
            Err(e) => Err(e),
            Ok(f) => if d.len() < f + 4 {
                Err(
                    ParserError::LengthMismatch {
                        expected: (f + 4) as usize,
                        actual: d.len() as usize,
                    },
                )
            } else if seq_count != ((d[f + 1] as u16) << 8 | (d[f + 2] as u16)) {
                Err(ParserError::SequenceCountMismatch)
            } else if checksum_byte(d.take(d.len() - 1)) != d[f + 3] {
                Err(ParserError::ChecksumFailed)
            } else {
                Ok(
                    CdpFrame {
                        framerate: fr,
                        sequence: seq_count,
                        time_code: tc,
                        cc_data: cc,
                        service_info: svc,
                    },
                )
            },
        }
    }
}

/// The parse of the optional service information section at index `i`, with
/// the cross-check of its flags against the packet header's flags.
pub open spec fn parse_svc_section(
    d: Seq<u8>,
    i: int,
    flags: Flags,
    fr: FramerateView,
    seq_count: u16,
    tc: Option<TimeCodeView>,
    cc: Option<Seq<u8>>,
) -> Result<CdpFrame, ParserError> {
    if !flags.svc_info {
        parse_footer_section(d, i, fr, seq_count, tc, cc, None)
    } else if d.len() < i + 2 {
        Err(ParserError::LengthMismatch { expected: (i + 2) as usize, actual: d.len() as usize })
    } else if d[i] != 0x73 {
        Err(ParserError::WrongMagic)
    } else if d.len() < i + 2 + 7 * (d[i + 1] & 0x0f) {
        Err(
            ParserError::LengthMismatch {
                expected: (i + 2 + 7 * (d[i + 1] & 0x0f)) as usize,
                actual: d.len() as usize,
            },
        )
    } else {
        match parse_service_info(d.subrange(i, i + 2 + 7 * (d[i + 1] & 0x0f))) {
            Err(e) => Err(e),
            Ok(si) => if si.start != flags.svc_info_start {
                Err(ParserError::ServiceFlagsMismatched)
            } else if si.change != flags.svc_info_change {
                Err(ParserError::ServiceFlagsMismatched)
            } else if si.complete != flags.svc_info_complete {
                Err(ParserError::ServiceFlagsMismatched)
            } else {
                parse_footer_section(
                    d,
                    i + 2 + 7 * (d[i + 1] & 0x0f),
                    fr,
                    seq_count,
                    tc,
                    cc,
                    Some(si),
                )
            },
        }
    }
}

/// The parse of the optional `cc_data` section at index `i`.  Its triples
/// are reassembled into a self-describing buffer for the caption-payload
/// collaborator: a header byte carrying the triple count, a padding byte,
/// then the raw triples.
pub open spec fn parse_cc_section(
    d: Seq<u8>,
    i: int,
    flags: Flags,
    fr: FramerateView,
    seq_count: u16,
    tc: Option<TimeCodeView>,
) -> Result<CdpFrame, ParserError> {
    if !flags.cc_data {
        parse_svc_section(d, i, flags, fr, seq_count, tc, None)
    } else if d.len() < i + 2 {
        Err(ParserError::LengthMismatch { expected: (i + 2) as usize, actual: d.len() as usize })
    } else if d[i] != 0x72 {
        Err(ParserError::WrongMagic)
    } else if d[i + 1] & 0xe0 != 0xe0 {
        Err(ParserError::InvalidFixedBits)
    } else if d.len() < i + 2 + 3 * (d[i + 1] & 0x1f) {
        Err(
            ParserError::LengthMismatch {
                expected: (i + 2 + 3 * (d[i + 1] & 0x1f)) as usize,
                actual: d.len() as usize,
            },
        )
    } else {
        parse_svc_section(
            d,
            i + 2 + 3 * (d[i + 1] & 0x1f),
            flags,
            fr,
            seq_count,
            tc,
            Some(
                seq![0xc0 | (d[i + 1] & 0x1f), 0xffu8] + d.subrange(
                    i + 2,
                    i + 2 + 3 * (d[i + 1] & 0x1f),
                ),
            ),
        )
    }
}

/// The parse of the optional time code section, which sits directly after
/// the 7-byte packet header.
pub open spec fn parse_tc_section(
    d: Seq<u8>,
    flags: Flags,
    fr: FramerateView,
    seq_count: u16,
) -> Result<CdpFrame, ParserError> {
    if !flags.time_code {
        parse_cc_section(d, 7, flags, fr, seq_count, None)
    } else if d.len() < 12 {
        Err(ParserError::LengthMismatch { expected: 12, actual: d.len() as usize })
    } else if d[7] != 0x71 {
        Err(ParserError::WrongMagic)
    } else {
        match parse_time_code_bytes(d.subrange(8, 12)) {
            Err(e) => Err(e),
            Ok(tc) => parse_cc_section(d, 12, flags, fr, seq_count, Some(tc)),
        }
    }
}

/// The parse of a complete CDP: magic bytes, the packet's self-described
/// length, the framerate identifier, the flags byte, the header sequence
/// count, then each optional section in order, the footer and the checksum.
pub open spec fn parse_cdp(d: Seq<u8>) -> Result<CdpFrame, ParserError> {
    if d.len() < 11 {
        Err(ParserError::LengthMismatch { expected: 11, actual: d.len() as usize })
    } else if !(d[0] == 0x96 && d[1] == 0x69) {
        Err(ParserError::WrongMagic)
    } else if d.len() != d[2] {
        Err(ParserError::LengthMismatch { expected: d[2] as usize, actual: d.len() as usize })
    } else {
        match framerate_from_id((d[3] & 0xf0) >> 4) {
            None => Err(ParserError::UnknownFramerate),
            Some(fr) => parse_tc_section(
                d,
                flags_from_byte(d[4]),
                fr,
                (d[5] as u16) << 8 | (d[6] as u16),
            ),
        }
    }
}

/// The state a [`CDPParser`] exposes: the envelope fields committed by the
/// most recent successful parse.
pub struct CDPParserView {
    pub time_code: Option<TimeCodeView>,
    pub framerate: Option<FramerateView>,
    pub service_info: Option<ServiceInfoView>,
    pub sequence: u16,
}

/// Parses CDP packets.
pub struct CDPParser {
    cc_data_parser: cea708_types::CCDataParser,
    time_code: Option<TimeCode>,
    framerate: Option<Framerate>,
    service_info: Option<ServiceInfo>,
    sequence: u16,
}

impl View for CDPParser {
    type V = CDPParserView;

    closed spec fn view(&self) -> CDPParserView {
        CDPParserView {
            time_code: opt_view(self.time_code),
            framerate: opt_view(self.framerate),
            service_info: match self.service_info {
                Some(ref si) => Some(si@),
                None => None,
            },
            sequence: self.sequence,
        }
    }
}

/// The view of a parser that holds no committed state.
pub open spec fn empty_parser_view() -> CDPParserView {
    CDPParserView {
        time_code: None,
        framerate: None,
        service_info: None,
        sequence: 0,
    }
}

impl Default for CDPParser {
    /// A fresh parser with no committed state and an empty payload parser
    /// that collects CEA-608 byte pairs.
    fn default() -> (r: Self)
        ensures
            r@ == empty_parser_view(),
    {
        let mut cc_data_parser = cc_parser_default();
        cc_parser_handle_cea608(&mut cc_data_parser);
        Self { cc_data_parser, time_code: None, framerate: None, service_info: None, sequence: 0 }
    }
}

/// The time code section, parsed when the header's time code flag is set.
fn parse_time_code_section(data: &[u8], fl: Ghost<Flags>, fr: Ghost<FramerateView>, seqc: u16)
    -> (r: Result<TimeCode, ParserError>)
    requires
        fl@ == flags_from_byte(data@[4]),
        fl@.time_code,
        data@.len() >= 11,
    ensures
        r matches Err(e) ==> parse_tc_section(data@, fl@, fr@, seqc) == Err::<
            CdpFrame,
            ParserError,
        >(e),
        r matches Ok(tc) ==> parse_tc_section(data@, fl@, fr@, seqc) == parse_cc_section(
            data@,
            12,
            fl@,
            fr@,
            seqc,
            Some(tc@),
        ),
{
    proof {
        lemma_u8_mask_bounds();
    }
    if data.len() < 12 {
        return Err(ParserError::LengthMismatch { expected: 12, actual: data.len() });
    }
    if data[7] != 0x71 {
        return Err(ParserError::WrongMagic);
    }

    proof {
        let b = data@.subrange(8, 12);
        assert(b[0] == data@[8] && b[1] == data@[9] && b[2] == data@[10] && b[3] == data@[11]);
    }

    if (data[8] & 0xc0) != 0xc0 {
        return Err(ParserError::InvalidFixedBits);
    }
    let hours = ((data[8] & 0x30) >> 4) * 10 + (data[8] & 0x0f);

    if (data[9] & 0x80) != 0x80 {
        return Err(ParserError::InvalidFixedBits);
    }
    let minutes = ((data[9] & 0x70) >> 4) * 10 + (data[9] & 0x0f);

    let field = (data[10] & 0x80) > 0;
    let seconds = ((data[10] & 0x70) >> 4) * 10 + (data[10] & 0x0f);

    let drop_frame = (data[11] & 0x80) > 0;
    if (data[11] & 0x40) != 0x00 {
        return Err(ParserError::InvalidFixedBits);
    }
    let frames = ((data[11] & 0x30) >> 4) * 10 + (data[11] & 0x0f);

    Ok(TimeCode::from_parts(hours, minutes, seconds, frames, field, drop_frame))
}

/// The `cc_data` section at `idx`, parsed when the header's cc_data flag is
/// set.  Returns the reassembled collaborator buffer and the index just
/// past the section.
#[verifier::loop_isolation(false)]
fn parse_cc_data_section(
    data: &[u8],
    idx: usize,
    fl: Ghost<Flags>,
    fr: Ghost<FramerateView>,
    seqc: u16,
    tcv: Ghost<Option<TimeCodeView>>,
) -> (r: Result<(Vec<u8>, usize), ParserError>)
    requires
        fl@ == flags_from_byte(data@[4]),
        fl@.cc_data,
        data@.len() >= 11,
        idx as int <= data@.len() <= 255,
    ensures
        r matches Err(e) ==> parse_cc_section(data@, idx as int, fl@, fr@, seqc, tcv@) == Err::<
            CdpFrame,
            ParserError,
        >(e),
        r matches Ok(p) ==> {
            &&& parse_cc_section(data@, idx as int, fl@, fr@, seqc, tcv@) == parse_svc_section(
                data@,
                p.1 as int,
                fl@,
                fr@,
                seqc,
                tcv@,
                Some(p.0@),
            )
            &&& p.0@.len() == 2 + 3 * ((p.0@[0] & 0x1f) as int)
            &&& p.0@[0] & 0x40 != 0
            &&& idx <= p.1 <= data@.len()
        },
{
    proof {
        lemma_u8_mask_bounds();
    }
    if data.len() < idx + 2 {
        return Err(ParserError::LengthMismatch { expected: idx + 2, actual: data.len() });
    }
    if data[idx] != 0x72 {
        return Err(ParserError::WrongMagic);
    }

    if (data[idx + 1] & 0xe0) != 0xe0 {
        return Err(ParserError::InvalidFixedBits);
    }
    let count_byte = data[idx + 1] & 0x1f;
    let cc_count = count_byte as usize;
    if data.len() < idx + 2 + cc_count * 3 {
        return Err(
            ParserError::LengthMismatch { expected: idx + 2 + cc_count * 3, actual: data.len() },
        );
    }
    let mut buf: Vec<u8> = Vec::new();
    buf.push(0xc0 | count_byte);
    buf.push(0xff);
    proof {
        assert(buf@ =~= seq![0xc0 | count_byte, 0xffu8] + data@.subrange(
            idx + 2,
            idx as int + 2,
        ));
    }
    let mut k: usize = 0;
    while k < cc_count * 3
        invariant
            k <= cc_count * 3,
            buf@ == seq![0xc0 | count_byte, 0xffu8] + data@.subrange(idx + 2, idx + 2 + k as int),
        decreases cc_count * 3 - k,
    {
        buf.push(data[idx + 2 + k]);
        k += 1;
        proof {
            assert(buf@ =~= seq![0xc0 | count_byte, 0xffu8] + data@.subrange(
                idx + 2,
                idx + 2 + k as int,
            ));
        }
    }
    proof {
        let b = data@[idx + 1];
        assert((0xc0 | (b & 0x1f)) & 0x1f == b & 0x1f && (0xc0 | (b & 0x1f)) & 0x40 != 0) by (
        bit_vector);
    }
    Ok((buf, idx + 2 + cc_count * 3))
}

/// The service information section at `idx`, parsed when the header's
/// service info flag is set, with the cross-check of its flags against the
/// header's.  Returns the parsed block and the index just past the section.
fn parse_svc_info_section(
    data: &[u8],
    idx: usize,
    fl: Ghost<Flags>,
    fr: Ghost<FramerateView>,
    seqc: u16,
    tcv: Ghost<Option<TimeCodeView>>,
    ccv: Ghost<Option<Seq<u8>>>,
) -> (r: Result<(ServiceInfo, usize), ParserError>)
    requires
        fl@ == flags_from_byte(data@[4]),
        fl@.svc_info,
        data@.len() >= 11,
        idx as int <= data@.len() <= 255,
    ensures
        r matches Err(e) ==> parse_svc_section(data@, idx as int, fl@, fr@, seqc, tcv@, ccv@)
            == Err::<CdpFrame, ParserError>(e),
        r matches Ok(p) ==> {
            &&& parse_svc_section(data@, idx as int, fl@, fr@, seqc, tcv@, ccv@)
                == parse_footer_section(data@, p.1 as int, fr@, seqc, tcv@, ccv@, Some(p.0@))
            &&& idx <= p.1 <= data@.len()
            &&& p.0.wf()
        },
{
    proof {
        lemma_u8_mask_bounds();
    }
    if data.len() < idx + 2 {
        return Err(ParserError::LengthMismatch { expected: idx + 2, actual: data.len() });
    }
    if data[idx] != 0x73 {
        return Err(ParserError::WrongMagic);
    }
    let svc_count = (data[idx + 1] & 0x0f) as usize;
    let svc_size = 2 + 7 * svc_count;
    if data.len() < idx + svc_size {
        return Err(ParserError::LengthMismatch { expected: idx + svc_size, actual: data.len() });
    }
    let section = vstd::slice::slice_subrange(data, idx, idx + svc_size);
    let si = match ServiceInfo::parse(section) {
        Ok(s) => s,
        Err(e) => {
            return Err(e);
        },
    };
    if si.is_start() != (data[4] & 0x10 != 0) {
        return Err(ParserError::ServiceFlagsMismatched);
    }
    if si.is_change() != (data[4] & 0x08 != 0) {
        return Err(ParserError::ServiceFlagsMismatched);
    }
    if si.is_complete() != (data[4] & 0x04 != 0) {
        return Err(ParserError::ServiceFlagsMismatched);
    }
    Ok((si, idx + svc_size))
}

/// The trailing part of a packet starting at `idx`: any future sections,
/// the footer, its sequence count, and the whole-packet checksum.
#[verifier::loop_isolation(false)]
fn parse_footer_part(
    data: &[u8],
    start: usize,
    fr: Ghost<FramerateView>,
    seqc: u16,
    tcv: Ghost<Option<TimeCodeView>>,
    ccv: Ghost<Option<Seq<u8>>>,
    siv: Ghost<Option<ServiceInfoView>>,
) -> (r: Result<(), ParserError>)
    requires
        start as int <= data@.len() <= 255,
        data@.len() >= 11,
    ensures
        r matches Err(e) ==> parse_footer_section(data@, start as int, fr@, seqc, tcv@, ccv@, siv@)
            == Err::<CdpFrame, ParserError>(e),
        r matches Ok(_) ==> parse_footer_section(data@, start as int, fr@, seqc, tcv@, ccv@, siv@)
            == Ok::<CdpFrame, ParserError>(
            CdpFrame {
                framerate: fr@,
                sequence: seqc,
                time_code: tcv@,
                cc_data: ccv@,
                service_info: siv@,
            },
        ),
{
    let mut idx = start;
    if data.len() < idx + 2 {
        return Err(ParserError::LengthMismatch { expected: idx + 2, actual: data.len() });
    }

    // future section handling
    while data[idx] != 0x74
        invariant
            start as int <= idx as int,
            idx + 2 <= data.len(),
            skip_future_sections(data@, start as int) == skip_future_sections(data@, idx as int),
        decreases data.len() - idx,
    {
        if data[idx] < 0x75 || data[idx] > 0xef {
            return Err(ParserError::WrongMagic);
        }
        idx += 1;
        let flen = data[idx] as usize;
        if data.len() < idx + flen {
            return Err(ParserError::LengthMismatch { expected: idx + flen, actual: data.len() });
        }
        idx += 1;
        idx += flen;
        if data.len() < idx + 2 {
            return Err(ParserError::LengthMismatch { expected: idx + 2, actual: data.len() });
        }
    }

    proof {
        assert(skip_future_sections(data@, start as int) == Ok::<int, ParserError>(idx as int));
    }

    // handle cdp footer
    if data.len() < idx + 4 {
        return Err(ParserError::LengthMismatch { expected: idx + 4, actual: data.len() });
    }
    if data[idx] != 0x74 {
        return Err(ParserError::WrongMagic);
    }
    idx += 1;
    let footer_sequence_count: u16 = (data[idx] as u16) << 8 | data[idx + 1] as u16;
    if seqc != footer_sequence_count {
        return Err(ParserError::SequenceCountMismatch);
    }
    idx += 2;

    let mut checksum: u8 = 0;
    let mut j: usize = 0;
    proof {
        assert(data@.take(0) =~= Seq::<u8>::empty());
    }
    while j < data.len() - 1
        invariant
            j <= data@.len() - 1,
            checksum == sum_mod_256(data@.take(j as int)),
        decreases data.len() - 1 - j,
    {
        checksum = checksum.wrapping_add(data[j]);
        j += 1;
        proof {
            lemma_sum_mod_256_take(data@, j - 1);
        }
    }
    // 256 - checksum without having to use a type larger than u8
    let checksum_byte_value = (!checksum).wrapping_add(1);
    proof {
        let c = checksum;
        assert((!c) == 255 - c) by (bit_vector);
        assert(checksum_byte_value == checksum_byte(data@.take(data@.len() - 1)));
    }
    if checksum_byte_value != data[idx] {
        return Err(ParserError::ChecksumFailed);
    }
    Ok(())
}

impl CDPParser {
    /// Create a new [`CDPParser`]
    pub fn new() -> (r: Self)
        ensures
            r@ == empty_parser_view(),
    {
        Self::default()
    }

    /// Push a complete `CDP` packet into the parser for processing.
    ///
    /// The packet is validated in full before anything is committed: on any
    /// envelope error the committed time code, framerate and sequence are
    /// left cleared (they are cleared at the start of every call) and the
    /// committed service information keeps its previous value.  On success
    /// every envelope field is replaced by the packet's, and the packet's
    /// `cc_data` triples are handed to the caption-payload collaborator,
    /// whose own rejection is the only error a structurally valid packet
    /// can still produce.
    #[verifier::rlimit(50)]
    pub fn parse(&mut self, data: &[u8]) -> (r: Result<(), ParserError>)
        ensures
            parse_cdp(data@) matches Err(e) ==> r == Err::<(), ParserError>(e) && final(self)@
                == (CDPParserView {
                time_code: None,
                framerate: None,
                sequence: 0,
                service_info: old(self)@.service_info,
            }),
            parse_cdp(data@) matches Ok(frame) ==> {
                &&& ((r matches Ok(_)) ==> final(self)@ == (CDPParserView {
                    time_code: frame.time_code,
                    framerate: Some(frame.framerate),
                    service_info: frame.service_info,
                    sequence: frame.sequence,
                }))
                &&& ((frame.cc_data matches Some(b) ==> !cea608_after_cea708(b)) ==> (
                r matches Ok(_)))
                &&& (r matches Err(e) ==> e == ParserError::Cea608AfterCea708 && (
                frame.cc_data matches Some(b) && cea608_after_cea708(b)) && final(self)@
                    == (CDPParserView {
                    time_code: None,
                    framerate: None,
                    sequence: 0,
                    service_info: old(self)@.service_info,
                }))
            },
            r matches Ok(_) ==> (final(self)@.service_info matches Some(s) ==> s.services.len()
                <= 15),
    {
        self.time_code = None;
        self.framerate = None;
        self.sequence = 0;

        if data.len() < 11 {
            return Err(ParserError::LengthMismatch { expected: 11, actual: data.len() });
        }

        if data[0] != 0x96 || data[1] != 0x69 {
            return Err(ParserError::WrongMagic);
        }

        let len = data[2] as usize;
        if data.len() != len {
            return Err(ParserError::LengthMismatch { expected: len, actual: data.len() });
        }

        let framerate = match Framerate::from_id((data[3] & 0xf0) >> 4) {
            Some(fr) => fr,
            None => {
                return Err(ParserError::UnknownFramerate);
            },
        };

        let flags = Flags::from_byte(data[4]);
        let ghost fl = flags_from_byte(data@[4]);

        let sequence_count: u16 = (data[5] as u16) << 8 | data[6] as u16;

        proof {
            assert(parse_cdp(data@) == parse_tc_section(data@, fl, framerate@, sequence_count));
        }

        let mut idx: usize = 7;
        let time_code: Option<TimeCode> = if flags.time_code {
            match parse_time_code_section(data, Ghost(fl), Ghost(framerate@), sequence_count) {
                Ok(tc) => {
                    idx = 12;
                    Some(tc)
                },
                Err(e) => {
                    return Err(e);
                },
            }
        } else {
            None
        };
        let ghost tcv = opt_view(time_code);
        proof {
            assert(parse_tc_section(data@, fl, framerate@, sequence_count) == parse_cc_section(
                data@,
                idx as int,
                fl,
                framerate@,
                sequence_count,
                tcv,
            ));
        }

        let cc_data: Option<Vec<u8>> = if flags.cc_data {
            match parse_cc_data_section(
                data,
                idx,
                Ghost(fl),
                Ghost(framerate@),
                sequence_count,
                Ghost(tcv),
            ) {
                Ok((buf, ni)) => {
                    idx = ni;
                    Some(buf)
                },
                Err(e) => {
                    return Err(e);
                },
            }
        } else {
            None
        };
        let ghost ccv: Option<Seq<u8>> = match cc_data {
            Some(ref v) => Some(v@),
            None => None,
        };
        proof {
            if !fl.cc_data {
                assert(parse_cc_section(data@, idx as int, fl, framerate@, sequence_count, tcv)
                    == parse_svc_section(
                    data@,
                    idx as int,
                    fl,
                    framerate@,
                    sequence_count,
                    tcv,
                    ccv,
                ));
            }
        }

        let service_info: Option<ServiceInfo> = if flags.svc_info {
            match parse_svc_info_section(
                data,
                idx,
                Ghost(fl),
                Ghost(framerate@),
                sequence_count,
                Ghost(tcv),
                Ghost(ccv),
            ) {
                Ok((si, ni)) => {
                    idx = ni;
                    Some(si)
                },
                Err(e) => {
                    return Err(e);
                },
            }
        } else {
            None
        };
        let ghost siv: Option<ServiceInfoView> = match service_info {
            Some(ref s) => Some(s@),
            None => None,
        };

        match parse_footer_part(
            data,
            idx,
            Ghost(framerate@),
            sequence_count,
            Ghost(tcv),
            Ghost(ccv),
            Ghost(siv),
        ) {
            Ok(_) => {},
            Err(e) => {
                return Err(e);
            },
        }

        proof {
            assert(parse_cdp(data@) == Ok::<CdpFrame, ParserError>(
                CdpFrame {
                    framerate: framerate@,
                    sequence: sequence_count,
                    time_code: tcv,
                    cc_data: ccv,
                    service_info: siv,
                },
            ));
        }

        if let Some(ref buf) = cc_data {
            match cc_parser_push(&mut self.cc_data_parser, buf) {
                Ok(_) => {},
                Err(e) => {
                    return Err(e);
                },
            }
        }
        self.framerate = Some(framerate);
        self.time_code = time_code;
        self.sequence = sequence_count;
        self.service_info = service_info;

        Ok(())
    }

    /// Clear any internal buffers
    pub fn flush(&mut self)
        ensures
            final(self)@ == empty_parser_view(),
    {
        *self = Self::default();
    }

    /// The latest CDP time code that has been parsed
    pub fn time_code(&self) -> (r: Option<TimeCode>)
        ensures
            opt_view(r) == self@.time_code,
    {
        self.time_code
    }

    /// The latest CDP framerate that has been parsed
    pub fn framerate(&self) -> (r: Option<Framerate>)
        ensures
            opt_view(r) == self@.framerate,
    {
        self.framerate
    }

    /// The latest CDP sequence number that has been parsed
    pub fn sequence(&self) -> (r: u16)
        ensures
            r == self@.sequence,
    {
        self.sequence
    }

    /// The latest Service Descriptor that has been parsed.
    pub fn service_info(&self) -> (r: Option<&ServiceInfo>)
        ensures
            match r {
                Some(si) => self@.service_info == Some(si@),
                None => self@.service_info is None,
            },
    {
        self.service_info.as_ref()
    }

    /// Pop a valid [`cea708_types::DTVCCPacket`] or None if no packet could
    /// be parsed.  The queue drains through the caption-payload
    /// collaborator; nothing is stated of its contents.
    pub fn pop_packet(&mut self) -> Option<cea708_types::DTVCCPacket> {
        cc_parser_pop_packet(&mut self.cc_data_parser)
    }

    /// Pop the list of [`cea708_types::Cea608`] contained in this packet
    pub fn cea608(&mut self) -> Option<&[cea708_types::Cea608]> {
        cc_parser_cea608(&mut self.cc_data_parser)
    }
}

} // verus!
