//! Laws relating the writer and the parser: a packet assembled by the
//! writer parses back to the state it was written from and is accepted
//! whole, its byte sum is zero, flipped fixed bits are rejected with
//! `InvalidFixedBits`, the cross-field checks reject packets whose footer
//! sequence count or service flags disagree with the header, and future
//! sections are skipped without being interpreted.

use vstd::prelude::*;

use crate::parser::{
    parse_cc_section, parse_cdp, parse_footer_section, parse_svc_section, parse_tc_section,
    parse_time_code_bytes, skip_future_sections, CdpFrame,
};
use crate::svc::{
    lemma_service_info_bytes_shape, lemma_service_info_round_trip, parse_service_info,
    service_info_writable, ServiceInfoView,
};
use crate::cc_data::{cea608_after_cea708, lemma_cea608_after_cea708_same_triples};
use crate::writer::{
    assemble_cdp, assemble_cdp_with, cdp_body_with, cdp_footer_bytes, cdp_header_bytes,
    cdp_total_len, opt_service_info_bytes, opt_service_info_len, opt_time_code_bytes,
    time_code_bytes, writer_flags, written_cc_section,
};
use crate::{
    bit_set, checksum_byte, flags_from_byte, flags_to_byte, framerate_from_id,
    lemma_flags_round_trip, lemma_sum_mod_256_concat, sum_mod_256, Flags, FramerateView,
    ParserError, TimeCodeView,
};

verus! {

/// A time code within the nominal SMPTE ranges, which the 5-byte section
/// encodes faithfully.
pub open spec fn time_code_writable(t: TimeCodeView) -> bool {
    t.hours <= 23 && t.minutes <= 59 && t.seconds <= 59 && t.frames <= 29
}

/// Splitting the two big-endian sequence count bytes recovers the count.
proof fn lemma_seq16_bytes(s: u16)
    by (bit_vector)
    ensures
        ((((s & 0xff00) >> 8) as u8) as u16) << 8 | (((s & 0xff) as u8) as u16) == s,
{
}

/// Round trip of the time code section body: parsing the 4 bytes after the
/// section id recovers a time code in the nominal ranges.
pub proof fn lemma_time_code_bytes_round_trip(t: TimeCodeView)
    requires
        time_code_writable(t),
    ensures
        time_code_bytes(t).len() == 5,
        time_code_bytes(t)[0] == 0x71,
        parse_time_code_bytes(time_code_bytes(t).subrange(1, 5)) == Ok::<
            TimeCodeView,
            ParserError,
        >(t),
{
    let b = time_code_bytes(t).subrange(1, 5);
    let h = t.hours;
    let m = t.minutes;
    let s = t.seconds;
    let f = t.frames;
    let fe: u8 = if t.field {
        0x80
    } else {
        0x00
    };
    let df: u8 = if t.drop_frame {
        0x80
    } else {
        0x00
    };
    assert(b[0] == 0xc0 | ((h / 10) << 4) | (h % 10));
    assert((0xc0 | ((h / 10) << 4) | (h % 10)) & 0xc0 == 0xc0 && (((0xc0 | ((h / 10) << 4) | (h
        % 10)) & 0x30) >> 4) * 10 + ((0xc0 | ((h / 10) << 4) | (h % 10)) & 0x0f) == h) by (
    bit_vector)
        requires
            h <= 23,
    ;
    assert((0x80 | ((m / 10) << 4) | (m % 10)) & 0x80 == 0x80 && (((0x80 | ((m / 10) << 4) | (m
        % 10)) & 0x70) >> 4) * 10 + ((0x80 | ((m / 10) << 4) | (m % 10)) & 0x0f) == m) by (
    bit_vector)
        requires
            m <= 59,
    ;
    assert((((fe | ((s / 10) << 4) | (s % 10)) & 0x70) >> 4) * 10 + ((fe | ((s / 10) << 4) | (s
        % 10)) & 0x0f) == s && ((fe | ((s / 10) << 4) | (s % 10)) & 0x80 != 0 <==> fe == 0x80)) by (
    bit_vector)
        requires
            s <= 59 && (fe == 0 || fe == 0x80),
    ;
    assert((df | ((f / 10) << 4) | (f % 10)) & 0x40 == 0 && (((df | ((f / 10) << 4) | (f % 10))
        & 0x30) >> 4) * 10 + ((df | ((f / 10) << 4) | (f % 10)) & 0x0f) == f && ((df | ((f / 10)
        << 4) | (f % 10)) & 0x80 != 0 <==> df == 0x80)) by (bit_vector)
        requires
            f <= 29 && (df == 0 || df == 0x80),
    ;
}

/// Flipping a documented fixed bit of the time code section makes its parse
/// fail with `InvalidFixedBits`: the top two bits of the hours byte, the
/// top bit of the minutes byte, and bit 6 of the frames byte are fixed.
pub proof fn lemma_time_code_fixed_bits_rejected(b: Seq<u8>)
    requires
        b.len() == 4,
        b[0] & 0xc0 != 0xc0 || b[1] & 0x80 != 0x80 || b[3] & 0x40 != 0,
    ensures
        parse_time_code_bytes(b) == Err::<TimeCodeView, ParserError>(
            ParserError::InvalidFixedBits,
        ),
{
}

/// A packet whose header checks pass but whose time code section carries a
/// flipped fixed bit is rejected with `InvalidFixedBits`, whatever follows
/// the section.
pub proof fn lemma_packet_with_bad_time_code_rejected(d: Seq<u8>)
    requires
        d.len() >= 12,
        d.len() == d[2],
        d[0] == 0x96,
        d[1] == 0x69,
        framerate_from_id((d[3] & 0xf0) >> 4) is Some,
        bit_set(d[4], 0x80),
        d[7] == 0x71,
        parse_time_code_bytes(d.subrange(8, 12)) == Err::<TimeCodeView, ParserError>(
            ParserError::InvalidFixedBits,
        ),
    ensures
        parse_cdp(d) == Err::<CdpFrame, ParserError>(ParserError::InvalidFixedBits),
{
}

/// A packet whose header and optional time code check out but whose
/// cc_data count byte lacks its three fixed bits is rejected with
/// `InvalidFixedBits`, whatever follows the section.
pub proof fn lemma_packet_with_bad_cc_count_rejected(d: Seq<u8>, i: int)
    requires
        d.len() >= 11,
        d.len() == d[2],
        d[0] == 0x96,
        d[1] == 0x69,
        framerate_from_id((d[3] & 0xf0) >> 4) is Some,
        i == (if bit_set(d[4], 0x80) { 12int } else { 7int }),
        bit_set(d[4], 0x80) ==> d.len() >= 12 && d[7] == 0x71 && (parse_time_code_bytes(
            d.subrange(8, 12),
        ) matches Ok(_)),
        bit_set(d[4], 0x40),
        d.len() >= i + 2,
        d[i] == 0x72,
        d[i + 1] & 0xe0 != 0xe0,
    ensures
        parse_cdp(d) == Err::<CdpFrame, ParserError>(ParserError::InvalidFixedBits),
{
}

/// The byte sum of every assembled packet is zero modulo 256: the checksum
/// byte is the two's-complement negation of the sum of all other bytes.
pub proof fn lemma_assembled_checksum_zero(
    fr: FramerateView,
    seq_count: u16,
    tc: Option<TimeCodeView>,
    cc: Seq<u8>,
    svc: Option<ServiceInfoView>,
    flags_byte: u8,
    footer_seq: u16,
)
    ensures
        sum_mod_256(assemble_cdp_with(fr, seq_count, tc, cc, svc, flags_byte, footer_seq)) == 0,
{
    let body = cdp_body_with(fr, seq_count, tc, cc, svc, flags_byte, footer_seq);
    let cb = checksum_byte(body);
    lemma_sum_mod_256_concat(body, seq![cb]);
    assert(sum_mod_256(seq![cb]) == cb) by {
        assert(seq![cb].drop_last() =~= Seq::<u8>::empty());
        assert(sum_mod_256(Seq::<u8>::empty()) == 0);
        assert(seq![cb].last() == cb);
    }
}

/// The flags byte contents an assembled packet carries, with the three
/// service flag bits left free.
pub open spec fn assembled_flags(
    tc: Option<TimeCodeView>,
    svc: Option<ServiceInfoView>,
    sa: bool,
    sc: bool,
    sp: bool,
) -> Flags {
    Flags {
        time_code: tc is Some,
        cc_data: true,
        svc_info: svc is Some,
        svc_info_start: sa,
        svc_info_change: sc,
        svc_info_complete: sp,
        caption_service_active: true,
        reserved: true,
    }
}

/// The collaborator buffer the parser rebuilds from a cc_data section.
pub open spec fn rebuilt_cc_buffer(cc: Seq<u8>) -> Seq<u8> {
    seq![0xc0 | (cc[1] & 0x1f), 0xffu8] + cc.subrange(2, cc.len() as int)
}

/// The preconditions shared by the assembled-packet lemmas: a framerate
/// from the table, sections that the format represents faithfully, and a
/// total length that fits the one-byte length field.
pub open spec fn assembled_wf(
    fr: FramerateView,
    tc: Option<TimeCodeView>,
    cc: Seq<u8>,
    svc: Option<ServiceInfoView>,
) -> bool {
    &&& framerate_from_id(fr.id) == Some(fr)
    &&& (tc matches Some(t) ==> time_code_writable(t))
    &&& (svc matches Some(s) ==> service_info_writable(s))
    &&& written_cc_section(cc)
    &&& cdp_total_len(tc, cc, svc) <= 255
}

/// The byte layout of an assembled packet: its length, the position of
/// each section, and the header bytes.
proof fn lemma_assembled_layout(
    fr: FramerateView,
    seq_count: u16,
    tc: Option<TimeCodeView>,
    cc: Seq<u8>,
    svc: Option<ServiceInfoView>,
    flags_byte: u8,
    footer_seq: u16,
)
    requires
        assembled_wf(fr, tc, cc, svc),
    ensures
        ({
            let d = assemble_cdp_with(fr, seq_count, tc, cc, svc, flags_byte, footer_seq);
            let body = cdp_body_with(fr, seq_count, tc, cc, svc, flags_byte, footer_seq);
            let o2 = 7 + opt_time_code_bytes(tc).len() as int;
            let o3 = o2 + cc.len() as int;
            let o4 = o3 + opt_service_info_bytes(svc).len() as int;
            &&& opt_time_code_bytes(tc).len() == (if tc is Some { 5int } else { 0int })
            &&& opt_service_info_bytes(svc).len() == opt_service_info_len(svc)
            &&& d.len() == cdp_total_len(tc, cc, svc)
            &&& d == body + seq![checksum_byte(body)]
            &&& d.take(d.len() - 1) == body
            &&& d.subrange(7, o2) == opt_time_code_bytes(tc)
            &&& d.subrange(o2, o3) == cc
            &&& d.subrange(o3, o4) == opt_service_info_bytes(svc)
            &&& d.subrange(o4, o4 + 3) == cdp_footer_bytes(footer_seq)
            &&& d[o4 + 3] == checksum_byte(body)
            &&& d[0] == 0x96 && d[1] == 0x69 && d[2] == cdp_total_len(tc, cc, svc) as u8
            &&& d[3] == ((fr.id << 4) | 0x0f)
            &&& d[4] == flags_byte
            &&& d[5] == ((seq_count & 0xff00) >> 8) as u8 && d[6] == (seq_count & 0xff) as u8
            &&& o4 + 4 == d.len()
        }),
{
    let d = assemble_cdp_with(fr, seq_count, tc, cc, svc, flags_byte, footer_seq);
    let body = cdp_body_with(fr, seq_count, tc, cc, svc, flags_byte, footer_seq);
    let hdr = cdp_header_bytes(cdp_total_len(tc, cc, svc) as u8, fr.id, flags_byte, seq_count);
    let tcb = opt_time_code_bytes(tc);
    let svcb = opt_service_info_bytes(svc);
    let ftr = cdp_footer_bytes(footer_seq);
    if svc is Some {
        lemma_service_info_bytes_shape(svc.unwrap());
    }
    assert(body == hdr + tcb + cc + svcb + ftr);
    let o2 = 7 + tcb.len() as int;
    let o3 = o2 + cc.len() as int;
    let o4 = o3 + svcb.len() as int;
    assert(d.take(d.len() - 1) =~= body);
    assert(d.subrange(7, o2) =~= tcb);
    assert(d.subrange(o2, o3) =~= cc);
    assert(d.subrange(o3, o4) =~= svcb);
    assert(d.subrange(o4, o4 + 3) =~= ftr);
}

/// The header phase of parsing an assembled packet: magic, length,
/// framerate, flags and sequence count all check out, and the parse
/// continues at the time code section's successor.
proof fn lemma_assembled_header_step(
    fr: FramerateView,
    seq_count: u16,
    tc: Option<TimeCodeView>,
    cc: Seq<u8>,
    svc: Option<ServiceInfoView>,
    sa: bool,
    sc: bool,
    sp: bool,
    footer_seq: u16,
)
    requires
        assembled_wf(fr, tc, cc, svc),
    ensures
        ({
            let fl = assembled_flags(tc, svc, sa, sc, sp);
            let d = assemble_cdp_with(fr, seq_count, tc, cc, svc, flags_to_byte(fl), footer_seq);
            let o2 = 7 + opt_time_code_bytes(tc).len() as int;
            parse_cdp(d) == parse_cc_section(d, o2, fl, fr, seq_count, tc)
        }),
{
    let fl = assembled_flags(tc, svc, sa, sc, sp);
    let fb = flags_to_byte(fl);
    lemma_flags_round_trip(fl);
    lemma_assembled_layout(fr, seq_count, tc, cc, svc, fb, footer_seq);
    let d = assemble_cdp_with(fr, seq_count, tc, cc, svc, fb, footer_seq);
    let tcb = opt_time_code_bytes(tc);
    let o2 = 7 + tcb.len() as int;
    let total = cdp_total_len(tc, cc, svc);
    assert(d.len() == total as u8);
    let idn = fr.id;
    assert((((idn << 4) | 0x0f) & 0xf0) >> 4 == idn) by (bit_vector)
        requires
            idn <= 8,
    ;
    lemma_seq16_bytes(seq_count);
    assert((d[5] as u16) << 8 | (d[6] as u16) == seq_count);
    assert(flags_from_byte(d[4]) == fl);
    assert(parse_cdp(d) == parse_tc_section(d, fl, fr, seq_count));
    match tc {
        Some(t) => {
            lemma_time_code_bytes_round_trip(t);
            assert(d[7] == tcb[0]);
            assert(d.subrange(8, 12) =~= tcb.subrange(1, 5));
            assert(parse_time_code_bytes(d.subrange(8, 12)) == Ok::<TimeCodeView, ParserError>(t));
            assert(o2 == 12);
        },
        None => {
            assert(o2 == 7);
        },
    }
}

/// The cc_data phase: the section id, fixed bits and triple count check
/// out, the collaborator buffer is rebuilt, and the parse continues at the
/// service information section.
#[verifier::rlimit(60)]
proof fn lemma_assembled_cc_step(
    fr: FramerateView,
    seq_count: u16,
    tc: Option<TimeCodeView>,
    cc: Seq<u8>,
    svc: Option<ServiceInfoView>,
    sa: bool,
    sc: bool,
    sp: bool,
    footer_seq: u16,
)
    requires
        assembled_wf(fr, tc, cc, svc),
    ensures
        ({
            let fl = assembled_flags(tc, svc, sa, sc, sp);
            let d = assemble_cdp_with(fr, seq_count, tc, cc, svc, flags_to_byte(fl), footer_seq);
            let o2 = 7 + opt_time_code_bytes(tc).len() as int;
            let o3 = o2 + cc.len() as int;
            parse_cc_section(d, o2, fl, fr, seq_count, tc) == parse_svc_section(
                d,
                o3,
                fl,
                fr,
                seq_count,
                tc,
                Some(rebuilt_cc_buffer(cc)),
            )
        }),
{
    let fl = assembled_flags(tc, svc, sa, sc, sp);
    let fb = flags_to_byte(fl);
    lemma_assembled_layout(fr, seq_count, tc, cc, svc, fb, footer_seq);
    let d = assemble_cdp_with(fr, seq_count, tc, cc, svc, fb, footer_seq);
    let o2 = 7 + opt_time_code_bytes(tc).len() as int;
    let o3 = o2 + cc.len() as int;
    let n = (cc[1] & 0x1f) as int;
    assert(d[o2] == cc[0] && d[o2 + 1] == cc[1]);
    assert(d.len() >= o2 + 2 + 3 * n);
    assert(seq![0xc0 | (d[o2 + 1] & 0x1f), 0xffu8] + d.subrange(o2 + 2, o2 + 2 + 3 * n)
        =~= rebuilt_cc_buffer(cc));
}

/// The service information phase: when the section is present its contents
/// parse back and the cross-check against the header's flag bits decides
/// between `ServiceFlagsMismatched` and continuing at the footer.
proof fn lemma_assembled_svc_step(
    fr: FramerateView,
    seq_count: u16,
    tc: Option<TimeCodeView>,
    cc: Seq<u8>,
    svc: Option<ServiceInfoView>,
    sa: bool,
    sc: bool,
    sp: bool,
    footer_seq: u16,
)
    requires
        assembled_wf(fr, tc, cc, svc),
    ensures
        ({
            let fl = assembled_flags(tc, svc, sa, sc, sp);
            let d = assemble_cdp_with(fr, seq_count, tc, cc, svc, flags_to_byte(fl), footer_seq);
            let o2 = 7 + opt_time_code_bytes(tc).len() as int;
            let o3 = o2 + cc.len() as int;
            let o4 = o3 + opt_service_info_bytes(svc).len() as int;
            let flags_mismatch = match svc {
                Some(s) => s.start != sa || s.change != sc || s.complete != sp,
                None => false,
            };
            parse_svc_section(d, o3, fl, fr, seq_count, tc, Some(rebuilt_cc_buffer(cc))) == (
            if flags_mismatch {
                Err::<CdpFrame, ParserError>(ParserError::ServiceFlagsMismatched)
            } else {
                parse_footer_section(
                    d,
                    o4,
                    fr,
                    seq_count,
                    tc,
                    Some(rebuilt_cc_buffer(cc)),
                    svc,
                )
            })
        }),
{
    let fl = assembled_flags(tc, svc, sa, sc, sp);
    let fb = flags_to_byte(fl);
    lemma_assembled_layout(fr, seq_count, tc, cc, svc, fb, footer_seq);
    let d = assemble_cdp_with(fr, seq_count, tc, cc, svc, fb, footer_seq);
    let o2 = 7 + opt_time_code_bytes(tc).len() as int;
    let o3 = o2 + cc.len() as int;
    let o4 = o3 + opt_service_info_bytes(svc).len() as int;
    match svc {
        Some(s) => {
            let svcb = opt_service_info_bytes(svc);
            lemma_service_info_bytes_shape(s);
            assert(d[o3] == svcb[0] && d[o3 + 1] == svcb[1]);
            let size = 2 + 7 * ((d[o3 + 1] & 0x0f) as int);
            assert(size == svcb.len());
            assert(d.subrange(o3, o3 + size) =~= svcb);
            lemma_service_info_round_trip(s);
            assert(parse_service_info(d.subrange(o3, o3 + size)) == Ok::<
                ServiceInfoView,
                ParserError,
            >(s));
        },
        None => {},
    }
}

/// The footer phase: the footer follows immediately, its sequence count
/// decides between `SequenceCountMismatch` and the checksum check, which an
/// assembled packet always passes.
proof fn lemma_assembled_footer_step(
    fr: FramerateView,
    seq_count: u16,
    tc: Option<TimeCodeView>,
    cc: Seq<u8>,
    svc: Option<ServiceInfoView>,
    sa: bool,
    sc: bool,
    sp: bool,
    footer_seq: u16,
)
    requires
        assembled_wf(fr, tc, cc, svc),
    ensures
        ({
            let fl = assembled_flags(tc, svc, sa, sc, sp);
            let d = assemble_cdp_with(fr, seq_count, tc, cc, svc, flags_to_byte(fl), footer_seq);
            let o2 = 7 + opt_time_code_bytes(tc).len() as int;
            let o3 = o2 + cc.len() as int;
            let o4 = o3 + opt_service_info_bytes(svc).len() as int;
            parse_footer_section(d, o4, fr, seq_count, tc, Some(rebuilt_cc_buffer(cc)), svc) == (
            if footer_seq != seq_count {
                Err::<CdpFrame, ParserError>(ParserError::SequenceCountMismatch)
            } else {
                Ok::<CdpFrame, ParserError>(
                    CdpFrame {
                        framerate: fr,
                        sequence: seq_count,
                        time_code: tc,
                        cc_data: Some(rebuilt_cc_buffer(cc)),
                        service_info: svc,
                    },
                )
            })
        }),
{
    let fl = assembled_flags(tc, svc, sa, sc, sp);
    let fb = flags_to_byte(fl);
    lemma_assembled_layout(fr, seq_count, tc, cc, svc, fb, footer_seq);
    let d = assemble_cdp_with(fr, seq_count, tc, cc, svc, fb, footer_seq);
    let body = cdp_body_with(fr, seq_count, tc, cc, svc, fb, footer_seq);
    let o2 = 7 + opt_time_code_bytes(tc).len() as int;
    let o3 = o2 + cc.len() as int;
    let o4 = o3 + opt_service_info_bytes(svc).len() as int;
    let ftr = cdp_footer_bytes(footer_seq);
    assert(d[o4] == ftr[0] && d[o4 + 1] == ftr[1] && d[o4 + 2] == ftr[2]);
    assert(skip_future_sections(d, o4) == Ok::<int, ParserError>(o4));
    lemma_seq16_bytes(footer_seq);
    assert((d[o4 + 1] as u16) << 8 | (d[o4 + 2] as u16) == footer_seq);
    assert(checksum_byte(d.take(d.len() - 1)) == d[o4 + 3]);
}

/// The parse of an assembled packet, generalized over the three service
/// flag bits carried in the header's flags byte and over the footer's copy
/// of the sequence count.  When the flag bits match the block and the two
/// counts agree the parse succeeds and recovers every field; a flag
/// mismatch fails with `ServiceFlagsMismatched`, and a count mismatch with
/// `SequenceCountMismatch`.
pub proof fn lemma_parse_assembled(
    fr: FramerateView,
    seq_count: u16,
    tc: Option<TimeCodeView>,
    cc: Seq<u8>,
    svc: Option<ServiceInfoView>,
    sa: bool,
    sc: bool,
    sp: bool,
    footer_seq: u16,
)
    requires
        assembled_wf(fr, tc, cc, svc),
    ensures
        ({
            let fl = assembled_flags(tc, svc, sa, sc, sp);
            let d = assemble_cdp_with(fr, seq_count, tc, cc, svc, flags_to_byte(fl), footer_seq);
            let flags_mismatch = match svc {
                Some(s) => s.start != sa || s.change != sc || s.complete != sp,
                None => false,
            };
            parse_cdp(d) == (if flags_mismatch {
                Err::<CdpFrame, ParserError>(ParserError::ServiceFlagsMismatched)
            } else if footer_seq != seq_count {
                Err::<CdpFrame, ParserError>(ParserError::SequenceCountMismatch)
            } else {
                Ok::<CdpFrame, ParserError>(
                    CdpFrame {
                        framerate: fr,
                        sequence: seq_count,
                        time_code: tc,
                        cc_data: Some(rebuilt_cc_buffer(cc)),
                        service_info: svc,
                    },
                )
            })
        }),
{
    lemma_assembled_header_step(fr, seq_count, tc, cc, svc, sa, sc, sp, footer_seq);
    lemma_assembled_cc_step(fr, seq_count, tc, cc, svc, sa, sc, sp, footer_seq);
    lemma_assembled_svc_step(fr, seq_count, tc, cc, svc, sa, sc, sp, footer_seq);
    lemma_assembled_footer_step(fr, seq_count, tc, cc, svc, sa, sc, sp, footer_seq);
}

/// Round trip of the envelope: a packet assembled from a writable state
/// parses back to exactly that state, with the collaborator's buffer
/// rebuilt from the packet's cc_data triples.
pub proof fn lemma_write_parse_round_trip(
    fr: FramerateView,
    seq_count: u16,
    tc: Option<TimeCodeView>,
    cc: Seq<u8>,
    svc: Option<ServiceInfoView>,
)
    requires
        framerate_from_id(fr.id) == Some(fr),
        tc matches Some(t) ==> time_code_writable(t),
        svc matches Some(s) ==> service_info_writable(s),
        written_cc_section(cc),
        cdp_total_len(tc, cc, svc) <= 255,
    ensures
        parse_cdp(assemble_cdp(fr, seq_count, tc, cc, svc)) == Ok::<CdpFrame, ParserError>(
            CdpFrame {
                framerate: fr,
                sequence: seq_count,
                time_code: tc,
                cc_data: Some(
                    seq![0xc0 | (cc[1] & 0x1f), 0xffu8] + cc.subrange(2, cc.len() as int),
                ),
                service_info: svc,
            },
        ),
{
    let sa = match svc {
        Some(s) => s.start,
        None => false,
    };
    let sc = match svc {
        Some(s) => s.change,
        None => false,
    };
    let sp = match svc {
        Some(s) => s.complete,
        None => false,
    };
    lemma_parse_assembled(fr, seq_count, tc, cc, svc, sa, sc, sp, seq_count);
    assert(writer_flags(tc, svc) == (Flags {
        time_code: tc is Some,
        cc_data: true,
        svc_info: svc is Some,
        svc_info_start: sa,
        svc_info_change: sc,
        svc_info_complete: sp,
        caption_service_active: true,
        reserved: true,
    }));
}

/// A packet whose footer carries a different sequence count than its
/// header fails to parse with `SequenceCountMismatch`.
pub proof fn lemma_sequence_count_mismatch_rejected(
    fr: FramerateView,
    seq_count: u16,
    tc: Option<TimeCodeView>,
    cc: Seq<u8>,
    svc: Option<ServiceInfoView>,
    footer_seq: u16,
)
    requires
        framerate_from_id(fr.id) == Some(fr),
        tc matches Some(t) ==> time_code_writable(t),
        svc matches Some(s) ==> service_info_writable(s),
        written_cc_section(cc),
        cdp_total_len(tc, cc, svc) <= 255,
        footer_seq != seq_count,
    ensures
        parse_cdp(
            assemble_cdp_with(
                fr,
                seq_count,
                tc,
                cc,
                svc,
                flags_to_byte(writer_flags(tc, svc)),
                footer_seq,
            ),
        ) == Err::<CdpFrame, ParserError>(ParserError::SequenceCountMismatch),
{
    let sa = match svc {
        Some(s) => s.start,
        None => false,
    };
    let sc = match svc {
        Some(s) => s.change,
        None => false,
    };
    let sp = match svc {
        Some(s) => s.complete,
        None => false,
    };
    lemma_parse_assembled(fr, seq_count, tc, cc, svc, sa, sc, sp, footer_seq);
    assert(writer_flags(tc, svc) == (Flags {
        time_code: tc is Some,
        cc_data: true,
        svc_info: svc is Some,
        svc_info_start: sa,
        svc_info_change: sc,
        svc_info_complete: sp,
        caption_service_active: true,
        reserved: true,
    }));
}

/// End to end: the parser session accepts every packet the writer emits.
/// A packet assembled from a writable state parses to exactly that state,
/// and the collaborator buffer the parser rebuilds from its cc_data
/// section carries no CEA-608 data after CEA-708 data, so the payload
/// collaborator accepts it too and `CDPParser::parse` returns `Ok` with
/// those fields committed.
pub proof fn lemma_written_packet_accepted(
    fr: FramerateView,
    seq_count: u16,
    tc: Option<TimeCodeView>,
    cc: Seq<u8>,
    svc: Option<ServiceInfoView>,
)
    requires
        framerate_from_id(fr.id) == Some(fr),
        tc matches Some(t) ==> time_code_writable(t),
        svc matches Some(s) ==> service_info_writable(s),
        written_cc_section(cc),
        !cea608_after_cea708(cc),
        cdp_total_len(tc, cc, svc) <= 255,
    ensures
        parse_cdp(assemble_cdp(fr, seq_count, tc, cc, svc)) == Ok::<CdpFrame, ParserError>(
            CdpFrame {
                framerate: fr,
                sequence: seq_count,
                time_code: tc,
                cc_data: Some(rebuilt_cc_buffer(cc)),
                service_info: svc,
            },
        ),
        !cea608_after_cea708(rebuilt_cc_buffer(cc)),
{
    lemma_write_parse_round_trip(fr, seq_count, tc, cc, svc);
    assert(rebuilt_cc_buffer(cc).skip(2) =~= cc.skip(2));
    assert(cc.subrange(2, cc.len() as int) =~= cc.skip(2));
    lemma_cea608_after_cea708_same_triples(rebuilt_cc_buffer(cc), cc);
}

/// Any packet that reaches its footer search at index `i` and finds the
/// footer with a sequence count different from the header's fails with
/// `SequenceCountMismatch`, whatever sections preceded the footer and
/// whatever the checksum byte holds: the count check precedes the
/// checksum check.
pub proof fn lemma_footer_sequence_mismatch_general(
    d: Seq<u8>,
    i: int,
    fr: FramerateView,
    seq_count: u16,
    tc: Option<TimeCodeView>,
    cc: Option<Seq<u8>>,
    svc: Option<ServiceInfoView>,
)
    requires
        d.len() >= i + 2,
        skip_future_sections(d, i) matches Ok(f) && d.len() >= f + 4 && seq_count != ((d[f
            + 1] as u16) << 8 | (d[f + 2] as u16)),
    ensures
        parse_footer_section(d, i, fr, seq_count, tc, cc, svc) == Err::<CdpFrame, ParserError>(
            ParserError::SequenceCountMismatch,
        ),
{
}

/// Any packet whose service information section parses but whose block
/// flags differ from the header's flag bits in at least one of start,
/// change and complete fails with `ServiceFlagsMismatched`, before the
/// footer or the checksum is even looked at.
pub proof fn lemma_service_flags_mismatch_general(
    d: Seq<u8>,
    i: int,
    flags: Flags,
    fr: FramerateView,
    seq_count: u16,
    tc: Option<TimeCodeView>,
    cc: Option<Seq<u8>>,
)
    requires
        flags.svc_info,
        d.len() >= i + 2,
        d[i] == 0x73,
        d.len() >= i + 2 + 7 * (d[i + 1] & 0x0f),
        parse_service_info(d.subrange(i, i + 2 + 7 * (d[i + 1] & 0x0f))) matches Ok(si) && (
        si.start != flags.svc_info_start || si.change != flags.svc_info_change || si.complete
            != flags.svc_info_complete),
    ensures
        parse_svc_section(d, i, flags, fr, seq_count, tc, cc) == Err::<CdpFrame, ParserError>(
            ParserError::ServiceFlagsMismatched,
        ),
{
}

/// Any error inside the service information section - a flipped fixed bit
/// of the block header or of an entry included - propagates out of the
/// packet parse unchanged.
pub proof fn lemma_service_info_error_propagates(
    d: Seq<u8>,
    i: int,
    flags: Flags,
    fr: FramerateView,
    seq_count: u16,
    tc: Option<TimeCodeView>,
    cc: Option<Seq<u8>>,
    e: ParserError,
)
    requires
        flags.svc_info,
        d.len() >= i + 2,
        d[i] == 0x73,
        d.len() >= i + 2 + 7 * (d[i + 1] & 0x0f),
        parse_service_info(d.subrange(i, i + 2 + 7 * (d[i + 1] & 0x0f))) == Err::<
            ServiceInfoView,
            ParserError,
        >(e),
    ensures
        parse_svc_section(d, i, flags, fr, seq_count, tc, cc) == Err::<CdpFrame, ParserError>(e),
{
}

/// Skipping one well-formed future section: the footer search from the
/// section's start equals the search from just past it.
pub proof fn lemma_future_section_skipped(d: Seq<u8>, i: int)
    requires
        0 <= i,
        i + 2 <= d.len(),
        0x75 <= d[i] <= 0xef,
        d.len() >= i + 1 + d[i + 1],
        d.len() >= i + 4 + d[i + 1],
    ensures
        skip_future_sections(d, i) == skip_future_sections(d, i + 2 + d[i + 1]),
{
}

/// A well-formed future section is transparent to the whole trailing part
/// of the parse: the footer search, the footer checks and the checksum
/// behave as if the parse had started just past the section, so its
/// contents are structurally skipped and never interpreted.
pub proof fn lemma_footer_section_skips_future(
    d: Seq<u8>,
    i: int,
    fr: FramerateView,
    seq_count: u16,
    tc: Option<TimeCodeView>,
    cc: Option<Seq<u8>>,
    svc: Option<ServiceInfoView>,
)
    requires
        0 <= i,
        i + 2 <= d.len(),
        0x75 <= d[i] <= 0xef,
        d.len() >= i + 1 + d[i + 1],
        d.len() >= i + 4 + d[i + 1],
    ensures
        parse_footer_section(d, i, fr, seq_count, tc, cc, svc) == parse_footer_section(
            d,
            i + 2 + d[i + 1],
            fr,
            seq_count,
            tc,
            cc,
            svc,
        ),
{
    lemma_future_section_skipped(d, i);
}

/// A packet whose header flag bits for start, change or complete differ
/// from the bits inside its service information block fails to parse with
/// `ServiceFlagsMismatched`.
pub proof fn lemma_service_flags_mismatch_rejected(
    fr: FramerateView,
    seq_count: u16,
    tc: Option<TimeCodeView>,
    cc: Seq<u8>,
    svc: ServiceInfoView,
    sa: bool,
    sc: bool,
    sp: bool,
)
    requires
        framerate_from_id(fr.id) == Some(fr),
        tc matches Some(t) ==> time_code_writable(t),
        service_info_writable(svc),
        written_cc_section(cc),
        cdp_total_len(tc, cc, Some(svc)) <= 255,
        svc.start != sa || svc.change != sc || svc.complete != sp,
    ensures
        parse_cdp(
            assemble_cdp_with(
                fr,
                seq_count,
                tc,
                cc,
                Some(svc),
                flags_to_byte(
                    Flags {
                        time_code: tc is Some,
                        cc_data: true,
                        svc_info: true,
                        svc_info_start: sa,
                        svc_info_change: sc,
                        svc_info_complete: sp,
                        caption_service_active: true,
                        reserved: true,
                    },
                ),
                seq_count,
            ),
        ) == Err::<CdpFrame, ParserError>(ParserError::ServiceFlagsMismatched),
{
    lemma_parse_assembled(fr, seq_count, tc, cc, Some(svc), sa, sc, sp, seq_count);
}

} // verus!
