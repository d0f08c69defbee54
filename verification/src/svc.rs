//! The caption service descriptor: a variable-length block describing up to
//! 15 caption services, each referring either to a CEA-608 field or to a
//! CEA-708 digital service (ATSC A/65 caption service descriptor format).

use vstd::prelude::*;

use crate::{bit_set, lemma_u8_mask_bounds, res_view, ParserError, WriterError};

verus! {

/// An entry describing a CEA-708 digital caption service.
#[derive(Debug, PartialEq, Eq, Copy, Clone)]
pub struct DigitalServiceEntry {
    service: u8,
    easy_reader: bool,
    wide_aspect_ratio: bool,
}

/// The mathematical content of a [`DigitalServiceEntry`].
pub struct DigitalServiceEntryView {
    pub service: u8,
    pub easy_reader: bool,
    pub wide_aspect_ratio: bool,
}

impl View for DigitalServiceEntry {
    type V = DigitalServiceEntryView;

    closed spec fn view(&self) -> DigitalServiceEntryView {
        DigitalServiceEntryView {
            service: self.service,
            easy_reader: self.easy_reader,
            wide_aspect_ratio: self.wide_aspect_ratio,
        }
    }
}

impl DigitalServiceEntry {
    /// Construct a new [`DigitalServiceEntry`].
    pub fn new(service: u8, easy_reader: bool, wide_aspect_ratio: bool) -> (r: Self)
        ensures
            r@ == (DigitalServiceEntryView { service, easy_reader, wide_aspect_ratio }),
    {
        Self { service, easy_reader, wide_aspect_ratio }
    }

    /// The CEA-708 service number referenced by this entry.
    pub fn service_no(&self) -> (r: u8)
        ensures
            r == self@.service,
    {
        self.service
    }

    /// Whether the service is an easy reader service.
    pub fn easy_reader(&self) -> (r: bool)
        ensures
            r == self@.easy_reader,
    {
        self.easy_reader
    }

    /// Whether the service is formatted for a wide aspect ratio.
    pub fn wide_aspect_ratio(&self) -> (r: bool)
        ensures
            r == self@.wide_aspect_ratio,
    {
        self.wide_aspect_ratio
    }
}

/// A value that is either a CEA-608 field or a CEA-708 service.
#[derive(Debug, PartialEq, Eq, Copy, Clone)]
pub enum FieldOrService {
    /// A CEA-608 field. Field 1 == true, Field 2 == false.
    Field(bool),
    /// A CEA-708 service.
    Service(DigitalServiceEntry),
}

/// The mathematical content of a [`FieldOrService`].
pub enum FieldOrServiceView {
    Field(bool),
    Service(DigitalServiceEntryView),
}

impl View for FieldOrService {
    type V = FieldOrServiceView;

    closed spec fn view(&self) -> FieldOrServiceView {
        match self {
            FieldOrService::Field(f) => FieldOrServiceView::Field(*f),
            FieldOrService::Service(d) => FieldOrServiceView::Service(d@),
        }
    }
}

/// An entry for a caption service as specified in ATSC A/65 (2013) 6.9.2
/// Caption Service Descriptor - Table 6.26
#[derive(Debug, PartialEq, Eq, Copy, Clone)]
pub struct ServiceEntry {
    language: [u8; 3],
    service: FieldOrService,
}

/// The mathematical content of a [`ServiceEntry`].
pub struct ServiceEntryView {
    pub language: Seq<u8>,
    pub service: FieldOrServiceView,
}

impl View for ServiceEntry {
    type V = ServiceEntryView;

    closed spec fn view(&self) -> ServiceEntryView {
        ServiceEntryView { language: self.language@, service: self.service@ }
    }
}

/// The parse of the 6-byte ATSC caption service descriptor entry body.
/// `d` is expected to hold exactly 6 bytes.
pub open spec fn parse_service_entry(d: Seq<u8>) -> Result<ServiceEntryView, ParserError> {
    if d[3] & 0x40 != 0x40 {
        Err(ParserError::InvalidFixedBits)
    } else if bit_set(d[3], 0x80) && d[3] & 0x3f == 0 {
        Err(ParserError::InvalidServiceNumber)
    } else if !bit_set(d[3], 0x80) && d[3] & 0x3e != 0x3e {
        Err(ParserError::InvalidFixedBits)
    } else if d[4] & 0x3f != 0x3f {
        Err(ParserError::InvalidFixedBits)
    } else if d[5] != 0xff {
        Err(ParserError::InvalidFixedBits)
    } else {
        Ok(
            ServiceEntryView {
                language: seq![d[0], d[1], d[2]],
                service: if bit_set(d[3], 0x80) {
                    FieldOrServiceView::Service(
                        DigitalServiceEntryView {
                            service: d[3] & 0x3f,
                            easy_reader: bit_set(d[4], 0x80),
                            wide_aspect_ratio: bit_set(d[4], 0x40),
                        },
                    )
                } else {
                    FieldOrServiceView::Field((d[3] & 0x3f) & 0x01 == 0)
                },
            },
        )
    }
}

/// The 6-byte serialized form of a caption service descriptor entry body.
pub open spec fn service_entry_bytes(e: ServiceEntryView) -> Seq<u8> {
    match e.service {
        FieldOrServiceView::Field(field) => seq![
            e.language[0],
            e.language[1],
            e.language[2],
            if field {
                0x7eu8
            } else {
                0x7fu8
            },
            0x3fu8,
            0xffu8,
        ],
        FieldOrServiceView::Service(d) => seq![
            e.language[0],
            e.language[1],
            e.language[2],
            0xc0 | d.service,
            (if d.easy_reader {
                0x80u8
            } else {
                0u8
            }) | (if d.wide_aspect_ratio {
                0x40u8
            } else {
                0u8
            }) | 0x3f,
            0xffu8,
        ],
    }
}

/// The 1-byte service-number header that precedes each entry inside a
/// service information block.  A field entry carries service number 0 (the
/// field itself sits in bit 0 of the entry body's fourth byte); a digital
/// entry carries its service number.
pub open spec fn service_entry_header_byte(e: ServiceEntryView) -> u8 {
    match e.service {
        FieldOrServiceView::Field(_) => 0x80u8,
        FieldOrServiceView::Service(d) => 0x80 | d.service,
    }
}

/// The parse of one 7-byte block of a service information section: the
/// service-number header followed by the 6-byte entry body, with the
/// cross-check that the two service numbers agree.
/// `d` is expected to hold exactly 7 bytes.
pub open spec fn parse_service_entry_block(d: Seq<u8>) -> Result<ServiceEntryView, ParserError> {
    if d[0] & 0x80 != 0x80 {
        Err(ParserError::InvalidFixedBits)
    } else if bit_set(d[0], 0x40) && d[0] & 0x20 != 0x20 {
        Err(ParserError::InvalidFixedBits)
    } else {
        let no = if bit_set(d[0], 0x40) {
            d[0] & 0x1f
        } else {
            d[0] & 0x3f
        };
        match parse_service_entry(d.subrange(1, 7)) {
            Err(e) => Err(e),
            Ok(e) => match e.service {
                FieldOrServiceView::Service(dig) => if dig.service != no {
                    Err(ParserError::ServiceNumberMismatch)
                } else {
                    Ok(e)
                },
                FieldOrServiceView::Field(_) => if no != 0 {
                    Err(ParserError::ServiceNumberMismatch)
                } else {
                    Ok(e)
                },
            },
        }
    }
}

/// The parse of `n` consecutive 7-byte entry blocks from the front of `d`,
/// stopping at the first failing block.
pub open spec fn parse_service_entries(d: Seq<u8>, n: nat) -> Result<
    Seq<ServiceEntryView>,
    ParserError,
>
    decreases n,
{
    if n == 0 {
        Ok(Seq::empty())
    } else {
        match parse_service_entry_block(d.take(7)) {
            Err(e) => Err(e),
            Ok(e) => match parse_service_entries(d.skip(7), (n - 1) as nat) {
                Err(e2) => Err(e2),
                Ok(rest) => Ok(seq![e] + rest),
            },
        }
    }
}

/// The parse of a complete service information section, starting at its
/// 0x73 identifier byte.
pub open spec fn parse_service_info(d: Seq<u8>) -> Result<ServiceInfoView, ParserError> {
    if d.len() < 2 {
        Err(ParserError::LengthMismatch { expected: 2, actual: d.len() as usize })
    } else if d[0] != 0x73 {
        Err(ParserError::WrongMagic)
    } else if d[1] & 0x80 != 0x80 {
        Err(ParserError::InvalidFixedBits)
    } else if d.len() != 7 * (d[1] & 0x0f) + 2 {
        Err(
            ParserError::LengthMismatch {
                expected: (7 * (d[1] & 0x0f) + 2) as usize,
                actual: d.len() as usize,
            },
        )
    } else {
        match parse_service_entries(d.skip(2), (d[1] & 0x0f) as nat) {
            Err(e) => Err(e),
            Ok(es) => Ok(
                ServiceInfoView {
                    start: bit_set(d[1], 0x40),
                    change: bit_set(d[1], 0x20),
                    complete: bit_set(d[1], 0x10),
                    services: es,
                },
            ),
        }
    }
}

/// The serialized entry blocks of a service information section, in order.
pub open spec fn service_entries_bytes(entries: Seq<ServiceEntryView>) -> Seq<u8>
    decreases entries.len(),
{
    if entries.len() == 0 {
        Seq::empty()
    } else {
        service_entries_bytes(entries.drop_last()) + seq![
            service_entry_header_byte(entries.last()),
        ] + service_entry_bytes(entries.last())
    }
}

/// The 2-byte header of a service information section.
pub open spec fn service_info_header_bytes(v: ServiceInfoView) -> Seq<u8> {
    seq![
        0x73u8,
        0x80 | (if v.start {
            0x40u8
        } else {
            0u8
        }) | (if v.change {
            0x20u8
        } else {
            0u8
        }) | (if v.complete {
            0x10u8
        } else {
            0u8
        }) | ((v.services.len() % 16) as u8),
    ]
}

/// The complete serialized form of a service information section.
pub open spec fn service_info_bytes(v: ServiceInfoView) -> Seq<u8> {
    service_info_header_bytes(v) + service_entries_bytes(v.services)
}

/// A service descriptor block of a CDP.
#[derive(Debug, PartialEq, Eq, Clone)]
pub struct ServiceInfo {
    start: bool,
    change: bool,
    complete: bool,
    services: Vec<ServiceEntry>,
}

/// The mathematical content of a [`ServiceInfo`].
pub struct ServiceInfoView {
    pub start: bool,
    pub change: bool,
    pub complete: bool,
    pub services: Seq<ServiceEntryView>,
}

impl View for ServiceInfo {
    type V = ServiceInfoView;

    closed spec fn view(&self) -> ServiceInfoView {
        ServiceInfoView {
            start: self.start,
            change: self.change,
            complete: self.complete,
            services: self.services@.map_values(|e: ServiceEntry| e@),
        }
    }
}

impl Default for ServiceInfo {
    /// An empty service information block with all flags cleared.
    fn default() -> (r: Self)
        ensures
            r@ == (ServiceInfoView {
                start: false,
                change: false,
                complete: false,
                services: Seq::<ServiceEntryView>::empty(),
            }),
    {
        let r = ServiceInfo { start: false, change: false, complete: false, services: Vec::new() };
        proof {
            assert(r@.services =~= Seq::<ServiceEntryView>::empty());
        }
        r
    }
}

impl ServiceEntry {
    /// Construct a new [`ServiceEntry`].
    pub fn new(language: [u8; 3], service: FieldOrService) -> (r: Self)
        ensures
            r@ == (ServiceEntryView { language: language@, service: service@ }),
    {
        Self { language, service }
    }

    /// Parse a Caption Service Descriptor as specified in ATSC A/65.
    pub fn parse(data: [u8; 6]) -> (r: Result<Self, ParserError>)
        ensures
            res_view(r) == parse_service_entry(data@),
    {
        let digital_cc = data[3] & 0x80 > 0;
        if data[3] & 0x40 != 0x40 {
            return Err(ParserError::InvalidFixedBits);
        }
        let atsc_service_no = data[3] & 0x3f;
        let easy_reader = data[4] & 0x80 > 0;
        let wide_aspect_ratio = data[4] & 0x40 > 0;
        let service = if digital_cc {
            if atsc_service_no == 0 {
                return Err(ParserError::InvalidServiceNumber);
            }
            FieldOrService::Service(
                DigitalServiceEntry { service: atsc_service_no, easy_reader, wide_aspect_ratio },
            )
        } else {
            if data[3] & 0x3e != 0x3e {
                return Err(ParserError::InvalidFixedBits);
            }
            FieldOrService::Field(atsc_service_no & 0x01 == 0)
        };
        if data[4] & 0x3f != 0x3f {
            return Err(ParserError::InvalidFixedBits);
        }
        if data[5] != 0xff {
            return Err(ParserError::InvalidFixedBits);
        }
        let r = Self { language: [data[0], data[1], data[2]], service };
        proof {
            assert(r@.language =~= parse_service_entry(data@).unwrap().language);
        }
        Ok(r)
    }

    /// Language code as specified in ISO 639.2/B encoded in ISO 8859-1 (latin-1).
    pub fn language(&self) -> (r: [u8; 3])
        ensures
            r@ == self@.language,
    {
        self.language
    }

    /// The CEA-608 field or CEA-708 service referenced by this entry.
    pub fn service(&self) -> (r: &FieldOrService)
        ensures
            r@ == self@.service,
    {
        &self.service
    }

    /// Append the 6-byte serialized form of this entry to `w`.
    pub fn write(&self, w: &mut Vec<u8>)
        ensures
            final(w)@ == old(w)@ + service_entry_bytes(self@),
    {
        match &self.service {
            FieldOrService::Field(field) => {
                w.push(self.language[0]);
                w.push(self.language[1]);
                w.push(self.language[2]);
                if *field {
                    w.push(0x7e);
                } else {
                    w.push(0x7f);
                }
                w.push(0x3f);
                w.push(0xff);
            },
            FieldOrService::Service(digital) => {
                w.push(self.language[0]);
                w.push(self.language[1]);
                w.push(self.language[2]);
                w.push(0xc0 | digital.service);
                let byte: u8 = (if digital.easy_reader {
                    0x80u8
                } else {
                    0u8
                }) | (if digital.wide_aspect_ratio {
                    0x40u8
                } else {
                    0u8
                }) | 0x3f;
                w.push(byte);
                w.push(0xff);
            },
        }
        proof {
            assert(w@ =~= old(w)@ + service_entry_bytes(self@));
        }
    }

    /// Write the 6-byte serialized form of this entry over the first 6 bytes
    /// of `data`, which must be at least 6 bytes long.
    pub fn write_into_unchecked(&self, data: &mut Vec<u8>)
        requires
            old(data)@.len() >= 6,
        ensures
            final(data)@.len() == old(data)@.len(),
            final(data)@.subrange(0, 6) == service_entry_bytes(self@),
            final(data)@.skip(6) == old(data)@.skip(6),
    {
        let mut bytes: Vec<u8> = Vec::new();
        self.write(&mut bytes);
        let mut i: usize = 0;
        while i < 6
            invariant
                0 <= i <= 6,
                bytes@ == service_entry_bytes(self@),
                bytes@.len() == 6,
                data@.len() == old(data)@.len() >= 6,
                data@.subrange(0, i as int) == bytes@.subrange(0, i as int),
                data@.skip(6) == old(data)@.skip(6),
            decreases 6 - i,
        {
            data.set(i, bytes[i]);
            i += 1;
            proof {
                assert(data@.subrange(0, i as int) =~= bytes@.subrange(0, i as int));
                assert(data@.skip(6) =~= old(data)@.skip(6));
            }
        }
        proof {
            assert(data@.subrange(0, 6) =~= bytes@);
        }
    }
}

/// The service-number header byte written before an entry: 0 for a field
/// entry, the service number for a digital one.
fn svc_header_byte(e: &ServiceEntry) -> (r: u8)
    ensures
        r == service_entry_header_byte(e@),
{
    match &e.service {
        FieldOrService::Field(_field) => 0x80,
        FieldOrService::Service(digital) => 0x80 | digital.service,
    }
}

impl ServiceInfo {
    /// Whether this block respects the format's capacity: a 4-bit entry
    /// count allows at most 15 services.
    pub open spec fn wf(&self) -> bool {
        self@.services.len() <= 15
    }

    /// Parse a sequence of bytes into a valid Service Descriptor.
    pub fn parse(data: &[u8]) -> (r: Result<Self, ParserError>)
        ensures
            res_view(r) == parse_service_info(data@),
            r matches Ok(si) ==> si.wf(),
    {
        proof {
            lemma_u8_mask_bounds();
        }
        if data.len() < 2 {
            return Err(ParserError::LengthMismatch { expected: 2, actual: data.len() });
        }
        if data[0] != 0x73 {
            return Err(ParserError::WrongMagic);
        }
        if data[1] & 0x80 != 0x80 {
            return Err(ParserError::InvalidFixedBits);
        }
        let svc_count: usize = (data[1] & 0x0f) as usize;
        let expected: usize = svc_count * 7 + 2;
        if data.len() != expected {
            return Err(ParserError::LengthMismatch { expected, actual: data.len() });
        }
        let start = data[1] & 0x40 > 0;
        let change = data[1] & 0x20 > 0;
        let complete = data[1] & 0x10 > 0;
        let ghost n = (data@[1] & 0x0f) as nat;
        let mut services: Vec<ServiceEntry> = Vec::new();
        let mut i: usize = 0;
        proof {
            assert(services@.map_values(|e: ServiceEntry| e@) =~= Seq::<
                ServiceEntryView,
            >::empty());
        }
        while i < svc_count
            invariant
                0 <= i <= svc_count,
                svc_count == n <= 15,
                data@.len() >= 2,
                data@[0] == 0x73,
                data@[1] & 0x80 == 0x80,
                n == (data@[1] & 0x0f) as nat,
                data@.len() == svc_count * 7 + 2,
                start == bit_set(data@[1], 0x40),
                change == bit_set(data@[1], 0x20),
                complete == bit_set(data@[1], 0x10),
                services@.len() == i,
                parse_service_entries(data@.skip(2), n) == (match parse_service_entries(
                    data@.skip(2 + 7 * i),
                    (n - i) as nat,
                ) {
                    Ok(rest) => Ok(services@.map_values(|e: ServiceEntry| e@) + rest),
                    Err(e) => Err(e),
                }),
            decreases svc_count - i,
        {
            let idx: usize = 2 + i * 7;
            let ghost block = data@.skip(2 + 7 * i as int).take(7);
            proof {
                assert(data@.skip(2 + 7 * i as int).len() >= 7);
                assert(block[0] == data@[idx as int]);
            }
            let h = data[idx];
            if h & 0x80 != 0x80 {
                return Err(ParserError::InvalidFixedBits);
            }
            let service_large = h & 0x40 > 0;
            let service_no: u8 = if service_large {
                if h & 0x20 != 0x20 {
                    return Err(ParserError::InvalidFixedBits);
                }
                h & 0x1f
            } else {
                h & 0x3f
            };
            let arr: [u8; 6] = [
                data[idx + 1],
                data[idx + 2],
                data[idx + 3],
                data[idx + 4],
                data[idx + 5],
                data[idx + 6],
            ];
            proof {
                assert(arr@ =~= block.subrange(1, 7));
            }
            let service = match ServiceEntry::parse(arr) {
                Ok(e) => e,
                Err(e) => {
                    return Err(e);
                },
            };
            match service.service() {
                FieldOrService::Service(digital) => {
                    if digital.service_no() != service_no {
                        return Err(ParserError::ServiceNumberMismatch);
                    }
                },
                FieldOrService::Field(_field1) => {
                    if service_no != 0 {
                        return Err(ParserError::ServiceNumberMismatch);
                    }
                },
            }
            proof {
                assert(parse_service_entry_block(block) == Ok::<ServiceEntryView, ParserError>(service@));
            }
            let ghost spre = services@;
            let ghost prev_map = services@.map_values(|e: ServiceEntry| e@);
            services.push(service);
            i += 1;
            proof {
                let iprev = i - 1;
                let dthen = data@.skip(2 + 7 * iprev);
                assert(dthen.take(7) =~= block);
                assert(dthen.skip(7) =~= data@.skip(2 + 7 * (i as int)));
                assert(parse_service_entries(dthen, (n - iprev) as nat) == (
                match parse_service_entries(dthen.skip(7), (n - i) as nat) {
                    Ok(rest) => Ok(seq![service@] + rest),
                    Err(e) => Err(e),
                }));
                assert(services@ == spre.push(service));
                assert(services@.map_values(|e: ServiceEntry| e@) =~= prev_map.push(service@));
                match parse_service_entries(data@.skip(2 + 7 * (i as int)), (n - i) as nat) {
                    Ok(rest) => {
                        assert(prev_map + (seq![service@] + rest) =~= prev_map.push(service@)
                            + rest);
                    },
                    Err(e) => {},
                }
            }
        }
        proof {
            assert(parse_service_entries(data@.skip(2 + 7 * i as int), 0) == Ok::<
                Seq<ServiceEntryView>,
                ParserError,
            >(Seq::empty()));
            assert(services@.map_values(|e: ServiceEntry| e@) + Seq::<ServiceEntryView>::empty()
                =~= services@.map_values(|e: ServiceEntry| e@));
        }
        let r = Self { start, change, complete, services };
        Ok(r)
    }

    /// This packet begins a complete set of Service Information.
    pub fn is_start(&self) -> (r: bool)
        ensures
            r == self@.start,
    {
        self.start
    }

    /// Set the start flag in this Service Information.
    pub fn set_start(&mut self, start: bool)
        ensures
            final(self)@ == (ServiceInfoView { start, ..old(self)@ }),
    {
        self.start = start;
    }

    /// This packet is an update to a previously sent Service Information.
    /// Can only be `true` when [is_start](ServiceInfo::is_start) is also
    /// `true`.
    pub fn is_change(&self) -> (r: bool)
        ensures
            r == self@.change,
    {
        self.change
    }

    /// Set the change flag in this Service Information.  If true, then the
    /// start flag will also be set to true.
    pub fn set_change(&mut self, change: bool)
        ensures
            final(self)@ == (ServiceInfoView {
                change,
                start: change || old(self)@.start,
                ..old(self)@
            }),
    {
        self.change = change;
        if change {
            self.start = true;
        }
    }

    /// This packet concludes a complete set of Service Information.
    pub fn is_complete(&self) -> (r: bool)
        ensures
            r == self@.complete,
    {
        self.complete
    }

    /// Set the complete flag in this Service Information.
    pub fn set_complete(&mut self, complete: bool)
        ensures
            final(self)@ == (ServiceInfoView { complete, ..old(self)@ }),
    {
        self.complete = complete;
    }

    /// The list of services described by this Service Information.
    pub fn services(&self) -> (r: &[ServiceEntry])
        ensures
            r@.map_values(|e: ServiceEntry| e@) == self@.services,
    {
        self.services.as_slice()
    }

    /// Remove all services from this Service Information block.
    pub fn clear_services(&mut self)
        ensures
            final(self)@ == (ServiceInfoView {
                services: Seq::<ServiceEntryView>::empty(),
                ..old(self)@
            }),
            final(self).wf(),
    {
        self.services.clear();
        proof {
            assert(self@.services =~= Seq::<ServiceEntryView>::empty());
        }
    }

    /// Add a service to this Service Information block.  Fails once the
    /// 4-bit entry count of the format is full, at 15 entries.
    pub fn add_service(&mut self, service: ServiceEntry) -> (r: Result<(), WriterError>)
        ensures
            old(self)@.services.len() >= 15 ==> r == Err::<(), WriterError>(
                WriterError::WouldOverflow(1),
            ) && final(self)@ == old(self)@,
            old(self)@.services.len() < 15 ==> (r matches Ok(_)) && final(self)@ == (ServiceInfoView {
                services: old(self)@.services.push(service@),
                ..old(self)@
            }),
            old(self).wf() ==> final(self).wf(),
    {
        if self.services.len() >= 15 {
            return Err(WriterError::WouldOverflow(1));
        }
        self.services.push(service);
        proof {
            assert(self@.services =~= old(self)@.services.push(service@));
        }
        Ok(())
    }

    /// The length in bytes of this Service Information.
    pub fn byte_len(&self) -> (r: usize)
        requires
            self.wf(),
        ensures
            r == 2 + 7 * self@.services.len(),
    {
        self.services.len() * 7 + 2
    }

    /// Append the serialized form of this Service Information to `w`.
    pub fn write(&self, w: &mut Vec<u8>)
        ensures
            final(w)@ == old(w)@ + service_info_bytes(self@),
    {
        w.push(0x73);
        let b1: u8 = 0x80 | (if self.start {
            0x40u8
        } else {
            0u8
        }) | (if self.change {
            0x20u8
        } else {
            0u8
        }) | (if self.complete {
            0x10u8
        } else {
            0u8
        }) | ((self.services.len() % 16) as u8);
        w.push(b1);
        proof {
            assert(w@ =~= old(w)@ + service_info_header_bytes(self@));
            assert(self@.services.take(0) =~= Seq::<ServiceEntryView>::empty());
        }
        let mut i: usize = 0;
        while i < self.services.len()
            invariant
                0 <= i <= self.services.len(),
                self@.services.len() == self.services@.len(),
                w@ == old(w)@ + service_info_header_bytes(self@) + service_entries_bytes(
                    self@.services.take(i as int),
                ),
            decreases self.services.len() - i,
        {
            let entry = self.services[i];
            proof {
                assert(entry@ == self@.services[i as int]);
            }
            w.push(svc_header_byte(&entry));
            entry.write(w);
            i += 1;
            proof {
                let t = self@.services.take(i as int);
                assert(t.drop_last() =~= self@.services.take(i - 1));
                assert(t.last() == self@.services[i - 1]);
                assert(w@ =~= old(w)@ + service_info_header_bytes(self@) + service_entries_bytes(
                    t,
                ));
            }
        }
        proof {
            assert(self@.services.take(self@.services.len() as int) =~= self@.services);
        }
    }

    /// Write this Service Information into a preallocated sequence of bytes.
    /// `data` must be at least [byte_len](ServiceInfo::byte_len) bytes.
    pub fn write_into_unchecked(&self, data: &mut Vec<u8>) -> (r: usize)
        requires
            self.wf(),
            old(data)@.len() >= 2 + 7 * self@.services.len(),
        ensures
            r == 2 + 7 * self@.services.len(),
            final(data)@.len() == old(data)@.len(),
            final(data)@.subrange(0, r as int) == service_info_bytes(self@),
            final(data)@.skip(r as int) == old(data)@.skip(r as int),
    {
        let mut bytes: Vec<u8> = Vec::new();
        self.write(&mut bytes);
        proof {
            lemma_service_entries_bytes_len(self@.services);
        }
        let total: usize = self.services.len() * 7 + 2;
        let mut i: usize = 0;
        while i < total
            invariant
                0 <= i <= total,
                bytes@ == service_info_bytes(self@),
                bytes@.len() == total,
                data@.len() == old(data)@.len() >= total,
                data@.subrange(0, i as int) == bytes@.subrange(0, i as int),
                data@.skip(total as int) == old(data)@.skip(total as int),
            decreases total - i,
        {
            data.set(i, bytes[i]);
            i += 1;
            proof {
                assert(data@.subrange(0, i as int) =~= bytes@.subrange(0, i as int));
                assert(data@.skip(total as int) =~= old(data)@.skip(total as int));
            }
        }
        proof {
            assert(data@.subrange(0, total as int) =~= bytes@);
        }
        total
    }
}

/// The serialized entry blocks of `n` entries occupy exactly `7 * n` bytes.
pub proof fn lemma_service_entries_bytes_len(entries: Seq<ServiceEntryView>)
    ensures
        service_entries_bytes(entries).len() == 7 * entries.len(),
    decreases entries.len(),
{
    if entries.len() > 0 {
        lemma_service_entries_bytes_len(entries.drop_last());
    }
}

/// An entry that the 6-byte descriptor body can represent faithfully: a
/// digital service number fits in its nonzero 6-bit field.
pub open spec fn service_entry_valid(e: ServiceEntryView) -> bool {
    e.language.len() == 3 && match e.service {
        FieldOrServiceView::Field(_) => true,
        FieldOrServiceView::Service(d) => 1 <= d.service <= 63,
    }
}

/// Round trip of the 6-byte entry body: parsing a written entry recovers it.
pub proof fn lemma_service_entry_round_trip(e: ServiceEntryView)
    requires
        service_entry_valid(e),
    ensures
        parse_service_entry(service_entry_bytes(e)) == Ok::<ServiceEntryView, ParserError>(e),
{
    let d = service_entry_bytes(e);
    match e.service {
        FieldOrServiceView::Field(field) => {
            let b3: u8 = if field {
                0x7e
            } else {
                0x7f
            };
            assert(0x7eu8 & 0x40 == 0x40 && 0x7eu8 & 0x80 == 0 && 0x7eu8 & 0x3e == 0x3e
                && (0x7eu8 & 0x3f) & 0x01 == 0 && 0x7fu8 & 0x40 == 0x40 && 0x7fu8 & 0x80 == 0
                && 0x7fu8 & 0x3e == 0x3e && (0x7fu8 & 0x3f) & 0x01 == 1 && 0x3fu8 & 0x3f == 0x3f)
                by (bit_vector);
            assert(parse_service_entry(d).unwrap().language =~= e.language);
        },
        FieldOrServiceView::Service(dig) => {
            let s = dig.service;
            let x: u8 = if dig.easy_reader {
                0x80
            } else {
                0
            };
            let y: u8 = if dig.wide_aspect_ratio {
                0x40
            } else {
                0
            };
            assert((0xc0 | s) & 0x40 == 0x40 && (0xc0 | s) & 0x80 != 0 && (0xc0 | s) & 0x3f == s
                && (x | y | 0x3f) & 0x3f == 0x3f && ((x | y | 0x3f) & 0x80 != 0 <==> x == 0x80) && (
            (x | y | 0x3f) & 0x40 != 0 <==> y == 0x40)) by (bit_vector)
                requires
                    1 <= s <= 63 && (x == 0 || x == 0x80) && (y == 0 || y == 0x40),
            ;
            assert(parse_service_entry(d).unwrap().language =~= e.language);
        },
    }
}

/// Round trip of one 7-byte entry block, header cross-check included.
pub proof fn lemma_service_entry_block_round_trip(e: ServiceEntryView)
    requires
        service_entry_valid(e),
    ensures
        parse_service_entry_block(seq![service_entry_header_byte(e)] + service_entry_bytes(e))
            == Ok::<ServiceEntryView, ParserError>(e),
{
    let d = seq![service_entry_header_byte(e)] + service_entry_bytes(e);
    assert(d.subrange(1, 7) =~= service_entry_bytes(e));
    lemma_service_entry_round_trip(e);
    match e.service {
        FieldOrServiceView::Field(_) => {
            assert(0x80u8 & 0x80 == 0x80 && 0x80u8 & 0x40 == 0 && 0x80u8 & 0x3f == 0) by (
            bit_vector);
        },
        FieldOrServiceView::Service(dig) => {
            let s = dig.service;
            assert((0x80 | s) & 0x80 == 0x80 && (0x80 | s) & 0x40 == 0 && (0x80 | s) & 0x3f == s)
                by (bit_vector)
                requires
                    1 <= s <= 63,
            ;
        },
    }
}

/// Left unfolding of [`service_entries_bytes`]: the first block, then the
/// rest.
proof fn lemma_service_entries_bytes_first(entries: Seq<ServiceEntryView>)
    requires
        entries.len() > 0,
    ensures
        service_entries_bytes(entries) == seq![service_entry_header_byte(entries[0])]
            + service_entry_bytes(entries[0]) + service_entries_bytes(entries.drop_first()),
    decreases entries.len(),
{
    if entries.len() == 1 {
        assert(entries.drop_last() =~= Seq::<ServiceEntryView>::empty());
        assert(entries.drop_first() =~= Seq::<ServiceEntryView>::empty());
        assert(service_entries_bytes(entries) =~= seq![service_entry_header_byte(entries[0])]
            + service_entry_bytes(entries[0]) + service_entries_bytes(entries.drop_first()));
    } else {
        lemma_service_entries_bytes_first(entries.drop_last());
        assert(entries.drop_last().drop_first() =~= entries.drop_first().drop_last());
        assert(entries.drop_last()[0] == entries[0]);
        assert(entries.drop_first().last() == entries.last());
        assert(service_entries_bytes(entries) =~= seq![service_entry_header_byte(entries[0])]
            + service_entry_bytes(entries[0]) + service_entries_bytes(entries.drop_first()));
    }
}

/// Round trip of a sequence of entry blocks.
pub proof fn lemma_service_entries_round_trip(entries: Seq<ServiceEntryView>)
    requires
        forall|i: int| 0 <= i < entries.len() ==> service_entry_valid(#[trigger] entries[i]),
    ensures
        parse_service_entries(service_entries_bytes(entries), entries.len() as nat) == Ok::<
            Seq<ServiceEntryView>,
            ParserError,
        >(entries),
    decreases entries.len(),
{
    let d = service_entries_bytes(entries);
    if entries.len() == 0 {
        assert(entries =~= Seq::<ServiceEntryView>::empty());
    } else {
        lemma_service_entries_bytes_first(entries);
        let blk = seq![service_entry_header_byte(entries[0])] + service_entry_bytes(entries[0]);
        lemma_service_entries_bytes_len(entries.drop_first());
        assert(d.take(7) =~= blk);
        assert(d.skip(7) =~= service_entries_bytes(entries.drop_first()));
        lemma_service_entry_block_round_trip(entries[0]);
        lemma_service_entries_round_trip(entries.drop_first());
        assert(seq![entries[0]] + entries.drop_first() =~= entries);
    }
}

/// The shape of a serialized service information section: its length, its
/// identifier byte, and the entry count carried in its header byte.
pub proof fn lemma_service_info_bytes_shape(v: ServiceInfoView)
    requires
        v.services.len() <= 15,
    ensures
        service_info_bytes(v).len() == 2 + 7 * v.services.len(),
        service_info_bytes(v)[0] == 0x73,
        service_info_bytes(v)[1] & 0x0f == v.services.len(),
{
    lemma_service_entries_bytes_len(v.services);
    let n = v.services.len() as u8;
    let su: u8 = if v.start {
        0x40
    } else {
        0
    };
    let cu: u8 = if v.change {
        0x20
    } else {
        0
    };
    let pu: u8 = if v.complete {
        0x10
    } else {
        0
    };
    assert((v.services.len() % 16) as u8 == n);
    assert((0x80 | su | cu | pu | n) & 0x0f == n) by (bit_vector)
        requires
            n <= 15 && (su == 0 || su == 0x40) && (cu == 0 || cu == 0x20) && (pu == 0 || pu
                == 0x10),
    ;
}

/// Flipping documented fixed bits of a serialized entry body - and only
/// those - makes its parse fail with `InvalidFixedBits`.  The fixed bits
/// are bit 6 of the fourth byte, bits 5-1 of the fourth byte for a field
/// entry, bits 5-0 of the fifth byte, and every bit of the sixth; the
/// premises pin all other bits to the entry's serialized form.
pub proof fn lemma_service_entry_fixed_bits_rejected(e: ServiceEntryView, d: Seq<u8>)
    requires
        service_entry_valid(e),
        d.len() == 6,
        d != service_entry_bytes(e),
        d[0] == service_entry_bytes(e)[0],
        d[1] == service_entry_bytes(e)[1],
        d[2] == service_entry_bytes(e)[2],
        d[3] & 0x80 == service_entry_bytes(e)[3] & 0x80,
        bit_set(service_entry_bytes(e)[3], 0x80) ==> d[3] & 0x3f == service_entry_bytes(e)[3]
            & 0x3f,
        !bit_set(service_entry_bytes(e)[3], 0x80) ==> d[3] & 0x01 == service_entry_bytes(e)[3]
            & 0x01,
        d[4] & 0xc0 == service_entry_bytes(e)[4] & 0xc0,
    ensures
        parse_service_entry(d) == Err::<ServiceEntryView, ParserError>(
            ParserError::InvalidFixedBits,
        ),
{
    let b = service_entry_bytes(e);
    let d3 = d[3];
    let d4 = d[4];
    let b3 = b[3];
    let b4 = b[4];
    match e.service {
        FieldOrServiceView::Service(dig) => {
            let x: u8 = if dig.easy_reader {
                0x80
            } else {
                0
            };
            let y: u8 = if dig.wide_aspect_ratio {
                0x40
            } else {
                0
            };
            let sn = dig.service;
            assert((0xc0 | sn) & 0x80 == 0x80 && (0xc0 | sn) & 0x3f == sn) by (bit_vector)
                requires
                    1 <= sn <= 63,
            ;
            if d3 != b3 {
                assert(d3 & 0x40 != 0x40) by (bit_vector)
                    requires
                        d3 & 0x80 == 0x80 && d3 & 0x3f == sn && d3 != (0xc0 | sn) && sn <= 63,
                ;
            } else {
                assert((0xc0 | sn) & 0x40 == 0x40 && (0xc0 | sn) & 0x3f != 0) by (bit_vector)
                    requires
                        1 <= sn <= 63,
                ;
                assert((x | y | 0x3f) & 0x3f == 0x3f && (x | y | 0x3f) & 0xc0 == (x | y)) by (
                bit_vector)
                    requires
                        (x == 0 || x == 0x80) && (y == 0 || y == 0x40),
                ;
                if d4 != b4 {
                    assert(d4 & 0x3f != 0x3f) by (bit_vector)
                        requires
                            d4 & 0xc0 == (x | y) && b4 & 0xc0 == (x | y) && b4 & 0x3f == 0x3f
                                && d4 != b4,
                    ;
                } else {
                    assert(d[5] != b[5]) by {
                        if d[5] == b[5] {
                            assert(d =~= b);
                        }
                    }
                }
            }
        },
        FieldOrServiceView::Field(field) => {
            assert(0x7eu8 & 0x80 == 0 && 0x7fu8 & 0x80 == 0 && 0x7eu8 & 0x01 == 0 && 0x7fu8
                & 0x01 == 1 && 0x3fu8 & 0xc0 == 0 && 0x3fu8 & 0x3f == 0x3f) by (bit_vector);
            if d3 != b3 {
                assert(d3 & 0x40 != 0x40 || d3 & 0x3e != 0x3e) by (bit_vector)
                    requires
                        d3 & 0x80 == 0 && d3 & 0x01 == b3 & 0x01 && d3 != b3 && (b3 == 0x7e || b3
                            == 0x7f),
                ;
            } else {
                if d4 != b4 {
                    assert(d4 & 0x3f != 0x3f) by (bit_vector)
                        requires
                            d4 & 0xc0 == 0 && b4 == 0x3f && d4 != b4,
                    ;
                } else {
                    assert(d[5] != b[5]) by {
                        if d[5] == b[5] {
                            assert(d =~= b);
                        }
                    }
                }
            }
        },
    }
}

/// Flipping the fixed bit 7 of an entry's service-number header byte, or
/// clearing bit 5 when bit 6 marks the large encoding, fails the block
/// parse with `InvalidFixedBits`.
pub proof fn lemma_service_entry_header_fixed_bits_rejected(d: Seq<u8>)
    requires
        d.len() == 7,
        d[0] & 0x80 != 0x80 || (bit_set(d[0], 0x40) && d[0] & 0x20 != 0x20),
    ensures
        parse_service_entry_block(d) == Err::<ServiceEntryView, ParserError>(
            ParserError::InvalidFixedBits,
        ),
{
}

/// A service information block that the wire format can represent
/// faithfully: at most 15 entries, each with a service number its 6-bit
/// nonzero field can carry.
pub open spec fn service_info_writable(v: ServiceInfoView) -> bool {
    v.services.len() <= 15 && forall|i: int|
        0 <= i < v.services.len() ==> service_entry_valid(#[trigger] v.services[i])
}

/// Round trip of a complete service information section: parsing a written
/// section recovers the flags and every entry.
pub proof fn lemma_service_info_round_trip(v: ServiceInfoView)
    requires
        service_info_writable(v),
    ensures
        parse_service_info(service_info_bytes(v)) == Ok::<ServiceInfoView, ParserError>(v),
{
    let d = service_info_bytes(v);
    let n = v.services.len() as u8;
    let su: u8 = if v.start {
        0x40
    } else {
        0
    };
    let cu: u8 = if v.change {
        0x20
    } else {
        0
    };
    let pu: u8 = if v.complete {
        0x10
    } else {
        0
    };
    let b1: u8 = 0x80 | su | cu | pu | n;
    assert((v.services.len() % 16) as u8 == n);
    lemma_service_entries_bytes_len(v.services);
    assert(d.len() == 2 + 7 * v.services.len());
    assert((0x80 | su | cu | pu | n) & 0x80 == 0x80 && (0x80 | su | cu | pu | n) & 0x0f == n && (
    (0x80 | su | cu | pu | n) & 0x40 != 0 <==> su == 0x40) && ((0x80 | su | cu | pu | n) & 0x20
        != 0 <==> cu == 0x20) && ((0x80 | su | cu | pu | n) & 0x10 != 0 <==> pu == 0x10)) by (
    bit_vector)
        requires
            n <= 15 && (su == 0 || su == 0x40) && (cu == 0 || cu == 0x20) && (pu == 0 || pu
                == 0x10),
    ;
    assert(d[1] == b1);
    assert(d.skip(2) =~= service_entries_bytes(v.services));
    lemma_service_entries_round_trip(v.services);
    assert(parse_service_info(d).unwrap() == v);
}

} // verus!
