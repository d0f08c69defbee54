//! The CDP envelope writer: a session object that assembles one complete
//! packet per call from its pending state and the caption-payload
//! collaborator's queued data, recomputing length, flags and checksum.

use vstd::prelude::*;

use crate::cc_data::{
    cc_writer_default, cc_writer_flush, cc_writer_push_cea608, cc_writer_push_packet,
    cc_writer_set_output_cea608_padding, cc_writer_set_output_padding, cc_writer_write,
    cea608_after_cea708, lemma_cea608_after_cea708_same_triples, max_cc_count_spec,
};
use crate::svc::{service_info_bytes, ServiceInfo, ServiceInfoView};
use crate::{
    checksum_byte, flags_to_byte, framerate_from_id, lemma_sum_mod_256_take, opt_view,
    sum_mod_256, Flags, Framerate, FramerateView, TimeCode, TimeCodeView, WriterError,
};

verus! {

/// The 5-byte serialized time code section: the section id, then
/// binary-coded-decimal digit pairs with the protocol's fixed bits, the
/// field flag and the drop-frame flag OR-ed in.
pub open spec fn time_code_bytes(tc: TimeCodeView) -> Seq<u8> {
    seq![
        0x71u8,
        0xc0 | ((tc.hours / 10) << 4) | (tc.hours % 10),
        0x80 | ((tc.minutes / 10) << 4) | (tc.minutes % 10),
        (if tc.field {
            0x80u8
        } else {
            0x00u8
        }) | ((tc.seconds / 10) << 4) | (tc.seconds % 10),
        (if tc.drop_frame {
            0x80u8
        } else {
            0x00u8
        }) | ((tc.frames / 10) << 4) | (tc.frames % 10),
    ]
}

/// The serialized time code section of an optional time code: empty when
/// absent.
pub open spec fn opt_time_code_bytes(tc: Option<TimeCodeView>) -> Seq<u8> {
    match tc {
        Some(t) => time_code_bytes(t),
        None => Seq::empty(),
    }
}

/// The serialized service information section of an optional block: empty
/// when absent.
pub open spec fn opt_service_info_bytes(svc: Option<ServiceInfoView>) -> Seq<u8> {
    match svc {
        Some(s) => service_info_bytes(s),
        None => Seq::empty(),
    }
}

/// The byte length of the serialized service information section of an
/// optional block.
pub open spec fn opt_service_info_len(svc: Option<ServiceInfoView>) -> int {
    match svc {
        Some(s) => 2 + 7 * s.services.len() as int,
        None => 0,
    }
}

/// The flags the writer derives for a packet: cc_data and the caption
/// service active bit are always set, the reserved bit is always written as
/// 1, and the time code and service info bits mirror the pending state.
pub open spec fn writer_flags(tc: Option<TimeCodeView>, svc: Option<ServiceInfoView>) -> Flags {
    Flags {
        time_code: tc is Some,
        cc_data: true,
        svc_info: svc is Some,
        svc_info_start: match svc {
            Some(s) => s.start,
            None => false,
        },
        svc_info_change: match svc {
            Some(s) => s.change,
            None => false,
        },
        svc_info_complete: match svc {
            Some(s) => s.complete,
            None => false,
        },
        caption_service_active: true,
        reserved: true,
    }
}

/// The total length in bytes of an assembled packet: the 7-byte header, the
/// optional 5-byte time code, the cc_data section, the optional service
/// information section, and the 4-byte footer.
pub open spec fn cdp_total_len(
    tc: Option<TimeCodeView>,
    cc: Seq<u8>,
    svc: Option<ServiceInfoView>,
) -> int {
    11 + (if tc is Some {
        5int
    } else {
        0int
    }) + cc.len() + opt_service_info_len(svc)
}

/// The 7-byte packet header.
pub open spec fn cdp_header_bytes(len_byte: u8, fr_id: u8, flags_byte: u8, seq_count: u16)
    -> Seq<u8> {
    seq![
        0x96u8,
        0x69u8,
        len_byte,
        (fr_id << 4) | 0x0f,
        flags_byte,
        ((seq_count & 0xff00) >> 8) as u8,
        (seq_count & 0xff) as u8,
    ]
}

/// The footer's first 3 bytes: the footer id and the footer's copy of the
/// sequence count.  The checksum byte follows them.
pub open spec fn cdp_footer_bytes(seq_count: u16) -> Seq<u8> {
    seq![0x74u8, ((seq_count & 0xff00) >> 8) as u8, (seq_count & 0xff) as u8]
}

/// The body of an assembled packet, generalized over the flags byte and
/// the footer's sequence count so that inconsistent packets can also be
/// described: header, optional time code, cc_data section, optional
/// service information and footer, everything but the checksum byte.
pub open spec fn cdp_body_with(
    fr: FramerateView,
    seq_count: u16,
    tc: Option<TimeCodeView>,
    cc: Seq<u8>,
    svc: Option<ServiceInfoView>,
    flags_byte: u8,
    footer_seq: u16,
) -> Seq<u8> {
    cdp_header_bytes(cdp_total_len(tc, cc, svc) as u8, fr.id, flags_byte, seq_count)
        + opt_time_code_bytes(tc) + cc + opt_service_info_bytes(svc) + cdp_footer_bytes(footer_seq)
}

/// A complete assembled packet: the body above, closed by the checksum byte
/// that makes the byte sum zero.
pub open spec fn assemble_cdp_with(
    fr: FramerateView,
    seq_count: u16,
    tc: Option<TimeCodeView>,
    cc: Seq<u8>,
    svc: Option<ServiceInfoView>,
    flags_byte: u8,
    footer_seq: u16,
) -> Seq<u8> {
    let body = cdp_body_with(fr, seq_count, tc, cc, svc, flags_byte, footer_seq);
    body + seq![checksum_byte(body)]
}

/// A complete assembled packet as the writer produces it: flags derived
/// from the pending state, the same sequence count in header and footer.
pub open spec fn assemble_cdp(
    fr: FramerateView,
    seq_count: u16,
    tc: Option<TimeCodeView>,
    cc: Seq<u8>,
    svc: Option<ServiceInfoView>,
) -> Seq<u8> {
    assemble_cdp_with(
        fr,
        seq_count,
        tc,
        cc,
        svc,
        flags_to_byte(writer_flags(tc, svc)),
        seq_count,
    )
}

/// The shape of every cc_data section the writer emits: the section id, a
/// count byte with its three fixed bits, and exactly count triples, at most
/// 25 of them (the largest triple budget of any framerate in the table).
pub open spec fn written_cc_section(cc: Seq<u8>) -> bool {
    &&& cc.len() >= 2
    &&& cc[0] == 0x72
    &&& cc[1] & 0xe0 == 0xe0
    &&& cc.len() == 2 + 3 * ((cc[1] & 0x1f) as int)
    &&& (cc[1] & 0x1f) <= 25
}

/// The cc_data section the writer emits for a raw collaborator buffer: the
/// collaborator's own two framing bytes are replaced by the CDP section id
/// and a count byte recomputed from the buffer's actual length.
pub open spec fn rewritten_cc_section(raw: Seq<u8>) -> Seq<u8> {
    seq![0x72u8, 0xe0 | (((raw.len() - 2) / 3) as u8)] + raw.skip(2)
}

/// A rewritten collaborator buffer of a whole number of triples, at most
/// 25, is a well-formed written cc_data section.
pub proof fn lemma_rewritten_cc_section_wf(raw: Seq<u8>)
    requires
        raw.len() >= 2,
        (raw.len() - 2) % 3 == 0,
        (raw.len() - 2) / 3 <= 25,
    ensures
        written_cc_section(rewritten_cc_section(raw)),
{
    let t = ((raw.len() - 2) / 3) as u8;
    assert((0xe0 | t) & 0xe0 == 0xe0 && (0xe0 | t) & 0x1f == t) by (bit_vector)
        requires
            t <= 25,
    ;
}

/// Every framerate in the table admits at most 25 caption triples per
/// frame, and its numerator is positive.
pub proof fn lemma_table_framerate_cc_bound(fr: FramerateView)
    requires
        framerate_from_id(fr.id) == Some(fr),
    ensures
        fr.numer >= 1,
        0 <= max_cc_count_spec(fr.numer, fr.denom) <= 25,
{
    if fr.id == 0x1 {
        assert(max_cc_count_spec(24000, 1001) == 25);
    } else if fr.id == 0x2 {
        assert(max_cc_count_spec(24, 1) == 25);
    } else if fr.id == 0x3 {
        assert(max_cc_count_spec(25, 1) == 24);
    } else if fr.id == 0x4 {
        assert(max_cc_count_spec(30000, 1001) == 20);
    } else if fr.id == 0x5 {
        assert(max_cc_count_spec(30, 1) == 20);
    } else if fr.id == 0x6 {
        assert(max_cc_count_spec(50, 1) == 12);
    } else if fr.id == 0x7 {
        assert(max_cc_count_spec(60000, 1001) == 10);
    } else {
        assert(max_cc_count_spec(60, 1) == 10);
    }
}

/// The state a [`CDPWriter`] exposes: what is pending for the next packet.
pub struct CDPWriterView {
    pub time_code: Option<TimeCodeView>,
    pub service_info: Option<ServiceInfoView>,
    pub sequence_count: u16,
}

/// A struct for writing a stream of CDPs.
pub struct CDPWriter {
    cc_data: cea708_types::CCDataWriter,
    time_code: Option<TimeCode>,
    service_info: Option<ServiceInfo>,
    sequence_count: u16,
}

impl View for CDPWriter {
    type V = CDPWriterView;

    closed spec fn view(&self) -> CDPWriterView {
        CDPWriterView {
            time_code: opt_view(self.time_code),
            service_info: match self.service_info {
                Some(ref si) => Some(si@),
                None => None,
            },
            sequence_count: self.sequence_count,
        }
    }
}

/// The view of a writer with nothing pending.
pub open spec fn empty_writer_view() -> CDPWriterView {
    CDPWriterView { time_code: None, service_info: None, sequence_count: 0 }
}

impl CDPWriter {
    /// Whether the pending state fits the wire format: a pending service
    /// information block holds at most 15 entries.
    pub open spec fn wf(&self) -> bool {
        match self@.service_info {
            Some(s) => s.services.len() <= 15,
            None => true,
        }
    }
}

/// Build the body of the next packet, checksum excluded, from the pending
/// state and the collaborator's raw cc_data buffer.
#[verifier::loop_isolation(false)]
#[verifier::rlimit(60)]
fn build_packet_body(
    framerate: Framerate,
    seq_count: u16,
    time_code: Option<TimeCode>,
    service_info: &Option<ServiceInfo>,
    cc_raw: &Vec<u8>,
) -> (b: Vec<u8>)
    requires
        cc_raw@.len() >= 2,
        (cc_raw@.len() - 2) % 3 == 0,
        (cc_raw@.len() - 2) / 3 <= 25,
        service_info matches Some(si) ==> si@.services.len() <= 15,
    ensures
        b@ == cdp_body_with(
            framerate@,
            seq_count,
            opt_view(time_code),
            rewritten_cc_section(cc_raw@),
            opt_view(*service_info),
            flags_to_byte(
                writer_flags(opt_view(time_code), opt_view(*service_info)),
            ),
            seq_count,
        ),
{
    let triples: usize = (cc_raw.len() - 2) / 3;
    let ghost tcv = opt_view(time_code);
    let ghost siv = opt_view(*service_info);
    let ghost cc_sec = rewritten_cc_section(cc_raw@);
    proof {
        assert(cc_raw@.skip(2).len() == 3 * triples);
    }

    let svc_len: usize = match service_info {
        Some(s) => s.byte_len(),
        None => 0,
    };
    let tc_len: usize = if time_code.is_some() {
        5
    } else {
        0
    };
    let total: usize = 7 + tc_len + (2 + 3 * triples) + svc_len + 4;
    proof {
        assert(total == cdp_total_len(tcv, cc_sec, siv));
    }

    let mut body: Vec<u8> = Vec::new();
    body.push(0x96);
    body.push(0x69);
    body.push(total as u8);
    body.push((framerate.id() << 4) | 0x0f);
    let flags = Flags {
        time_code: time_code.is_some(),
        cc_data: true,
        svc_info: service_info.is_some(),
        svc_info_start: match service_info {
            Some(s) => s.is_start(),
            None => false,
        },
        svc_info_change: match service_info {
            Some(s) => s.is_change(),
            None => false,
        },
        svc_info_complete: match service_info {
            Some(s) => s.is_complete(),
            None => false,
        },
        caption_service_active: true,
        reserved: true,
    };
    body.push(flags.to_byte());
    body.push(((seq_count & 0xff00) >> 8) as u8);
    body.push((seq_count & 0xff) as u8);
    proof {
        assert(flags == writer_flags(tcv, siv));
        assert(body@ =~= cdp_header_bytes(
            total as u8,
            framerate@.id,
            flags_to_byte(writer_flags(tcv, siv)),
            seq_count,
        ));
    }

    if let Some(tc) = time_code {
        body.push(0x71);
        body.push(0xc0 | ((tc.hours() / 10) << 4) | (tc.hours() % 10));
        body.push(0x80 | ((tc.minutes() / 10) << 4) | (tc.minutes() % 10));
        body.push(
            (if tc.field() {
                0x80u8
            } else {
                0x00u8
            }) | ((tc.seconds() / 10) << 4) | (tc.seconds() % 10),
        );
        body.push(
            (if tc.drop_frame() {
                0x80u8
            } else {
                0x00u8
            }) | ((tc.frames() / 10) << 4) | (tc.frames() % 10),
        );
    }
    let ghost hdr_tc = cdp_header_bytes(
        total as u8,
        framerate@.id,
        flags_to_byte(writer_flags(tcv, siv)),
        seq_count,
    ) + opt_time_code_bytes(tcv);
    proof {
        assert(body@ =~= hdr_tc);
    }

    body.push(0x72);
    body.push(0xe0 | (triples as u8));
    let mut k: usize = 0;
    while k < 3 * triples
        invariant
            k <= 3 * triples,
            body@ == hdr_tc + seq![0x72u8, 0xe0 | (triples as u8)] + cc_raw@.subrange(
                2,
                2 + k as int,
            ),
        decreases 3 * triples - k,
    {
        body.push(cc_raw[2 + k]);
        k += 1;
        proof {
            assert(body@ =~= hdr_tc + seq![0x72u8, 0xe0 | (triples as u8)] + cc_raw@.subrange(
                2,
                2 + k as int,
            ));
        }
    }
    proof {
        assert(cc_raw@.subrange(2, 2 + 3 * triples as int) =~= cc_raw@.skip(2));
        assert(body@ =~= hdr_tc + cc_sec);
    }

    if let Some(s) = service_info {
        s.write(&mut body);
    }
    proof {
        assert(body@ =~= hdr_tc + cc_sec + opt_service_info_bytes(siv));
    }

    body.push(0x74);
    body.push(((seq_count & 0xff00) >> 8) as u8);
    body.push((seq_count & 0xff) as u8);
    proof {
        assert(body@ =~= cdp_body_with(
            framerate@,
            seq_count,
            tcv,
            cc_sec,
            siv,
            flags_to_byte(writer_flags(tcv, siv)),
            seq_count,
        ));
    }
    body
}

/// Append `body` to `w`, followed by the checksum byte that brings the
/// byte sum of the appended packet to zero.
#[verifier::loop_isolation(false)]
fn append_with_checksum(body: &Vec<u8>, w: &mut Vec<u8>)
    ensures
        final(w)@ == old(w)@ + body@ + seq![checksum_byte(body@)],
{
    let mut checksum: u8 = 0;
    let mut j: usize = 0;
    proof {
        assert(body@.take(0) =~= Seq::<u8>::empty());
    }
    while j < body.len()
        invariant
            j <= body@.len(),
            checksum == sum_mod_256(body@.take(j as int)),
        decreases body@.len() - j,
    {
        checksum = checksum.wrapping_add(body[j]);
        j += 1;
        proof {
            lemma_sum_mod_256_take(body@, j - 1);
        }
    }
    // 256 - checksum without having to use a type larger than u8
    let checksum_byte_value = (!checksum).wrapping_add(1);
    proof {
        let c = checksum;
        assert((!c) == 255 - c) by (bit_vector);
        assert(body@.take(body@.len() as int) =~= body@);
        assert(checksum_byte_value == checksum_byte(body@));
    }
    let mut i: usize = 0;
    while i < body.len()
        invariant
            i <= body@.len(),
            w@ == old(w)@ + body@.take(i as int),
        decreases body@.len() - i,
    {
        w.push(body[i]);
        i += 1;
        proof {
            assert(w@ =~= old(w)@ + body@.take(i as int));
        }
    }
    w.push(checksum_byte_value);
    proof {
        assert(body@.take(body@.len() as int) =~= body@);
        assert(w@ =~= old(w)@ + body@ + seq![checksum_byte(body@)]);
    }
}

impl Default for CDPWriter {
    /// A fresh writer with nothing pending, whose payload writer pads its
    /// output up to the framerate's caption budget.
    fn default() -> (r: Self)
        ensures
            r@ == empty_writer_view(),
            r.wf(),
    {
        let mut cc_data = cc_writer_default();
        cc_writer_set_output_padding(&mut cc_data, true);
        cc_writer_set_output_cea608_padding(&mut cc_data, true);
        Self { cc_data, time_code: None, service_info: None, sequence_count: 0 }
    }
}

impl CDPWriter {
    /// Construct a new [`CDPWriter`].
    pub fn new() -> (r: Self)
        ensures
            r@ == empty_writer_view(),
            r.wf(),
    {
        Self::default()
    }

    /// Push a [`cea708_types::DTVCCPacket`] for writing
    pub fn push_packet(&mut self, packet: cea708_types::DTVCCPacket)
        ensures
            final(self)@ == old(self)@,
            old(self).wf() ==> final(self).wf(),
    {
        cc_writer_push_packet(&mut self.cc_data, packet)
    }

    /// Push a [`cea708_types::Cea608`] byte pair for writing
    pub fn push_cea608(&mut self, cea608: cea708_types::Cea608)
        ensures
            final(self)@ == old(self)@,
            old(self).wf() ==> final(self).wf(),
    {
        cc_writer_push_cea608(&mut self.cc_data, cea608)
    }

    /// Set the optional time code to use for the next CDP packet that is
    /// generated.  It stays pending until replaced or cleared.
    pub fn set_time_code(&mut self, time_code: Option<TimeCode>)
        ensures
            final(self)@ == (CDPWriterView { time_code: opt_view(time_code), ..old(self)@ }),
            old(self).wf() ==> final(self).wf(),
    {
        self.time_code = time_code;
    }

    /// Set the optional [`ServiceInfo`] for the next CDP packet that is
    /// generated.  It stays pending until replaced or cleared.
    pub fn set_service_info(&mut self, service_info: Option<ServiceInfo>)
        requires
            service_info matches Some(si) ==> si.wf(),
        ensures
            final(self)@ == (CDPWriterView {
                service_info: match service_info {
                    Some(si) => Some(si@),
                    None => None,
                },
                ..old(self)@
            }),
            final(self).wf(),
    {
        self.service_info = service_info;
    }

    /// Set the next packet's sequence count to a specific value
    pub fn set_sequence_count(&mut self, sequence: u16)
        ensures
            final(self)@ == (CDPWriterView { sequence_count: sequence, ..old(self)@ }),
            old(self).wf() ==> final(self).wf(),
    {
        self.sequence_count = sequence;
    }

    /// Write the next CDP packet, taking the queued CEA-608 byte pairs and
    /// [`cea708_types::DTVCCPacket`]s from the payload writer.
    ///
    /// The packet always contains a cc_data section; the pending time code
    /// and service information are included when present and stay pending
    /// afterwards.  With a framerate from the table and a well-formed
    /// pending state the packet always fits its one-byte length field, so
    /// writing cannot fail.
    pub fn write(&mut self, framerate: Framerate, w: &mut Vec<u8>) -> (r: Result<(), WriterError>)
        requires
            framerate_from_id(framerate@.id) == Some(framerate@),
            old(self).wf(),
        ensures
            final(self)@ == old(self)@,
            final(self).wf(),
            r matches Ok(_),
            exists|cc: Seq<u8>|
                #[trigger] written_cc_section(cc) && !cea608_after_cea708(cc) && final(w)@ == old(
                    w,
                )@ + assemble_cdp(
                    framerate@,
                    old(self)@.sequence_count,
                    old(self)@.time_code,
                    cc,
                    old(self)@.service_info,
                ),
    {
        proof {
            lemma_table_framerate_cc_bound(framerate@);
        }
        let cc_raw = cc_writer_write(&mut self.cc_data, framerate.numer(), framerate.denom());
        let body = build_packet_body(
            framerate,
            self.sequence_count,
            self.time_code,
            &self.service_info,
            &cc_raw,
        );
        append_with_checksum(&body, w);
        proof {
            lemma_rewritten_cc_section_wf(cc_raw@);
            let ghost cc_sec = rewritten_cc_section(cc_raw@);
            assert(cc_sec.skip(2) =~= cc_raw@.skip(2));
            lemma_cea608_after_cea708_same_triples(cc_sec, cc_raw@);
            assert(written_cc_section(cc_sec) && !cea608_after_cea708(cc_sec) && w@ == old(w)@
                + assemble_cdp(
                framerate@,
                old(self)@.sequence_count,
                old(self)@.time_code,
                cc_sec,
                old(self)@.service_info,
            ));
        }
        Ok(())
    }

    /// Clear all stored data: the pending time code, service information
    /// and sequence count, and the payload writer's queues.
    pub fn flush(&mut self)
        ensures
            final(self)@ == empty_writer_view(),
            final(self).wf(),
    {
        cc_writer_flush(&mut self.cc_data);
        self.time_code = None;
        self.sequence_count = 0;
        self.service_info = None;
    }
}

} // verus!
