//! Reading and writing of CDP (Caption Distribution Packet) structures.
//!
//! A CDP is the SMPTE 334-2 envelope that carries CEA-608/708 caption data
//! together with timing and caption-service metadata.  This crate provides a
//! bit-exact, verified parser and writer for the envelope: header, optional
//! time code, cc-data section, optional service descriptor, skipped future
//! sections, and the checksummed footer.  The caption payload itself is
//! framed but not interpreted; it is handed to the `cea708_types` crate.

use vstd::prelude::*;

pub mod cc_data;
pub mod laws;
pub mod parser;
pub mod svc;
pub mod writer;

pub use parser::CDPParser;
pub use svc::{DigitalServiceEntry, FieldOrService, ServiceEntry, ServiceInfo};
pub use writer::CDPWriter;

verus! {

/// Various possible errors when parsing data
#[derive(Debug, Clone, Copy, PartialEq, Eq, Structural)]
pub enum ParserError {
    /// The length of the data does not match the length in the data
    LengthMismatch {
        /// Expected minimum size of the data
        expected: usize,
        /// The actual length of the data
        actual: usize,
    },
    /// Some magic byte/s do not have the correct value
    WrongMagic,
    /// Unrecognised framerate value
    UnknownFramerate,
    /// Some 'fixed' bits did not have the correct value
    InvalidFixedBits,
    /// CEA-608 bytes were found after CEA-708 bytes
    Cea608AfterCea708,
    /// Failed to validate the checksum
    ChecksumFailed,
    /// Sequence count differs between the header and the footer
    SequenceCountMismatch,
    /// The service information contains conflicting service numbers
    ServiceNumberMismatch,
    /// The service number is not valid
    InvalidServiceNumber,
    /// The service descriptor contains a different set of flags to the CDP
    ServiceFlagsMismatched,
}

/// Various possible errors when writing data
#[derive(Debug, Clone, Copy, PartialEq, Eq, Structural)]
pub enum WriterError {
    /// Writing would overflow by how many bytes
    WouldOverflow(usize),
    /// It is not possible to write to this resource
    ReadOnly,
    /// It is not possible to write an empty service
    EmptyService,
}

/// Whether some of the bits selected by `mask` are set in `b`.
pub open spec fn bit_set(b: u8, mask: u8) -> bool {
    b & mask != 0
}

/// An option with the contained value replaced by its mathematical view.
pub open spec fn opt_view<T: View>(o: Option<T>) -> Option<T::V> {
    match o {
        Some(t) => Some(t@),
        None => None,
    }
}

/// A parse result with the parsed value replaced by its mathematical view.
pub open spec fn res_view<T: View>(r: Result<T, ParserError>) -> Result<T::V, ParserError> {
    match r {
        Ok(t) => Ok(t@),
        Err(e) => Err(e),
    }
}

/// A framerate as found in a CDP.
#[derive(Debug, Clone, Copy, PartialEq, Eq, Structural)]
pub struct Framerate {
    id: u8,
    numer: u32,
    denom: u32,
}

/// The mathematical content of a [`Framerate`].
pub struct FramerateView {
    pub id: u8,
    pub numer: u32,
    pub denom: u32,
}

impl View for Framerate {
    type V = FramerateView;

    closed spec fn view(&self) -> FramerateView {
        FramerateView { id: self.id, numer: self.numer, denom: self.denom }
    }
}

/// The fixed table of CDP framerates, keyed by the 4-bit identifier.
pub open spec fn framerate_from_id(id: u8) -> Option<FramerateView> {
    if id == 0x1 {
        Some(FramerateView { id: 0x1, numer: 24000, denom: 1001 })
    } else if id == 0x2 {
        Some(FramerateView { id: 0x2, numer: 24, denom: 1 })
    } else if id == 0x3 {
        Some(FramerateView { id: 0x3, numer: 25, denom: 1 })
    } else if id == 0x4 {
        Some(FramerateView { id: 0x4, numer: 30000, denom: 1001 })
    } else if id == 0x5 {
        Some(FramerateView { id: 0x5, numer: 30, denom: 1 })
    } else if id == 0x6 {
        Some(FramerateView { id: 0x6, numer: 50, denom: 1 })
    } else if id == 0x7 {
        Some(FramerateView { id: 0x7, numer: 60000, denom: 1001 })
    } else if id == 0x8 {
        Some(FramerateView { id: 0x8, numer: 60, denom: 1 })
    } else {
        None
    }
}

impl Framerate {
    /// Create a [`Framerate`] from an identifier as found in a CDP.
    pub fn from_id(id: u8) -> (r: Option<Framerate>)
        ensures
            match r {
                Some(fr) => framerate_from_id(id) == Some(fr@),
                None => framerate_from_id(id) == None::<FramerateView>,
            },
    {
        if id == 0x1 {
            Some(Framerate { id: 0x1, numer: 24000, denom: 1001 })
        } else if id == 0x2 {
            Some(Framerate { id: 0x2, numer: 24, denom: 1 })
        } else if id == 0x3 {
            Some(Framerate { id: 0x3, numer: 25, denom: 1 })
        } else if id == 0x4 {
            Some(Framerate { id: 0x4, numer: 30000, denom: 1001 })
        } else if id == 0x5 {
            Some(Framerate { id: 0x5, numer: 30, denom: 1 })
        } else if id == 0x6 {
            Some(Framerate { id: 0x6, numer: 50, denom: 1 })
        } else if id == 0x7 {
            Some(Framerate { id: 0x7, numer: 60000, denom: 1001 })
        } else if id == 0x8 {
            Some(Framerate { id: 0x8, numer: 60, denom: 1 })
        } else {
            None
        }
    }

    /// The identifier for this [`Framerate`] in a CDP.
    pub fn id(&self) -> (r: u8)
        ensures
            r == self@.id,
    {
        self.id
    }

    /// The numerator component of this [`Framerate`]
    pub fn numer(&self) -> (r: u32)
        ensures
            r == self@.numer,
    {
        self.numer
    }

    /// The denominator component of this [`Framerate`]
    pub fn denom(&self) -> (r: u32)
        ensures
            r == self@.denom,
    {
        self.denom
    }
}

/// A time code as available in a CDP.
#[derive(Debug, Clone, Copy, PartialEq, Eq, Structural)]
pub struct TimeCode {
    hours: u8,
    minutes: u8,
    seconds: u8,
    frames: u8,
    field: bool,
    drop_frame: bool,
}

/// The mathematical content of a [`TimeCode`].
pub struct TimeCodeView {
    pub hours: u8,
    pub minutes: u8,
    pub seconds: u8,
    pub frames: u8,
    pub field: bool,
    pub drop_frame: bool,
}

impl View for TimeCode {
    type V = TimeCodeView;

    closed spec fn view(&self) -> TimeCodeView {
        TimeCodeView {
            hours: self.hours,
            minutes: self.minutes,
            seconds: self.seconds,
            frames: self.frames,
            field: self.field,
            drop_frame: self.drop_frame,
        }
    }
}

impl TimeCode {
    /// Construct a new [`TimeCode`] value.
    pub fn new(hours: u8, minutes: u8, seconds: u8, frames: u8, field: bool, drop_frame: bool)
        -> (r: Self)
        requires
            hours <= 23,
            minutes <= 59,
            seconds <= 59,
            frames <= 29,
        ensures
            r@ == (TimeCodeView { hours, minutes, seconds, frames, field, drop_frame }),
    {
        Self { hours, minutes, seconds, frames, field, drop_frame }
    }

    /// A time code built from raw decoded digits, without the range checks
    /// of [`TimeCode::new`]: the wire format can carry digit pairs beyond
    /// the nominal ranges, and the parser reports them as decoded.
    pub(crate) fn from_parts(
        hours: u8,
        minutes: u8,
        seconds: u8,
        frames: u8,
        field: bool,
        drop_frame: bool,
    ) -> (r: Self)
        ensures
            r@ == (TimeCodeView { hours, minutes, seconds, frames, field, drop_frame }),
    {
        Self { hours, minutes, seconds, frames, field, drop_frame }
    }

    /// The hour value of this [`TimeCode`].
    pub fn hours(&self) -> (r: u8)
        ensures
            r == self@.hours,
    {
        self.hours
    }

    /// The minute value of this [`TimeCode`].
    pub fn minutes(&self) -> (r: u8)
        ensures
            r == self@.minutes,
    {
        self.minutes
    }

    /// The second value of this [`TimeCode`].
    pub fn seconds(&self) -> (r: u8)
        ensures
            r == self@.seconds,
    {
        self.seconds
    }

    /// The frame value of this [`TimeCode`].
    pub fn frames(&self) -> (r: u8)
        ensures
            r == self@.frames,
    {
        self.frames
    }

    /// The field value of this [`TimeCode`].
    pub fn field(&self) -> (r: bool)
        ensures
            r == self@.field,
    {
        self.field
    }

    /// The drop frame value of this [`TimeCode`].
    pub fn drop_frame(&self) -> (r: bool)
        ensures
            r == self@.drop_frame,
    {
        self.drop_frame
    }
}

/// A set of flags available in a CDP header byte.
pub struct Flags {
    pub time_code: bool,
    pub cc_data: bool,
    pub svc_info: bool,
    pub svc_info_start: bool,
    pub svc_info_change: bool,
    pub svc_info_complete: bool,
    pub caption_service_active: bool,
    pub reserved: bool,
}

/// The flags encoded in one CDP header byte.
pub open spec fn flags_from_byte(b: u8) -> Flags {
    Flags {
        time_code: bit_set(b, 0x80),
        cc_data: bit_set(b, 0x40),
        svc_info: bit_set(b, 0x20),
        svc_info_start: bit_set(b, 0x10),
        svc_info_change: bit_set(b, 0x08),
        svc_info_complete: bit_set(b, 0x04),
        caption_service_active: bit_set(b, 0x02),
        reserved: bit_set(b, 0x01),
    }
}

/// One if the flag is set, zero if not.
pub open spec fn flag_bit(b: bool) -> u8 {
    if b {
        1
    } else {
        0
    }
}

/// The CDP header byte encoding the given flags.  The reserved bit is
/// spec-fixed to 1 on output, whatever was recorded on input.
pub open spec fn flags_to_byte(f: Flags) -> u8 {
    (flag_bit(f.time_code) << 7) | (flag_bit(f.cc_data) << 6) | (flag_bit(f.svc_info) << 5)
        | (flag_bit(f.svc_info_start) << 4) | (flag_bit(f.svc_info_change) << 3)
        | (flag_bit(f.svc_info_complete) << 2) | (flag_bit(f.caption_service_active) << 1) | 0x1
}

impl Flags {
    /// Decode a CDP header byte into its flags.
    pub fn from_byte(b: u8) -> (r: Flags)
        ensures
            r == flags_from_byte(b),
    {
        Flags {
            time_code: b & 0x80 != 0,
            cc_data: b & 0x40 != 0,
            svc_info: b & 0x20 != 0,
            svc_info_start: b & 0x10 != 0,
            svc_info_change: b & 0x08 != 0,
            svc_info_complete: b & 0x04 != 0,
            caption_service_active: b & 0x02 != 0,
            reserved: b & 0x01 != 0,
        }
    }

    /// Encode these flags as a CDP header byte, forcing the reserved bit to 1.
    pub fn to_byte(&self) -> (r: u8)
        ensures
            r == flags_to_byte(*self),
    {
        (if self.time_code {
            1u8
        } else {
            0u8
        } << 7) | (if self.cc_data {
            1u8
        } else {
            0u8
        } << 6) | (if self.svc_info {
            1u8
        } else {
            0u8
        } << 5) | (if self.svc_info_start {
            1u8
        } else {
            0u8
        } << 4) | (if self.svc_info_change {
            1u8
        } else {
            0u8
        } << 3) | (if self.svc_info_complete {
            1u8
        } else {
            0u8
        } << 2) | (if self.caption_service_active {
            1u8
        } else {
            0u8
        } << 1) | 0x1
    }
}

/// Round trip of the flags codec: decoding an encoded byte recovers every
/// flag, with the reserved bit reading as set.
pub proof fn lemma_flags_round_trip(f: Flags)
    ensures
        flags_from_byte(flags_to_byte(f)) == (Flags { reserved: true, ..f }),
{
    let a = flag_bit(f.time_code);
    let b = flag_bit(f.cc_data);
    let c = flag_bit(f.svc_info);
    let d = flag_bit(f.svc_info_start);
    let e = flag_bit(f.svc_info_change);
    let g = flag_bit(f.svc_info_complete);
    let h = flag_bit(f.caption_service_active);
    let byte = flags_to_byte(f);
    assert((a << 7 | b << 6 | c << 5 | d << 4 | e << 3 | g << 2 | h << 1 | 0x1) & 0x80u8 != 0
        <==> a == 1) by (bit_vector)
        requires
            a <= 1 && b <= 1 && c <= 1 && d <= 1 && e <= 1 && g <= 1 && h <= 1,
    ;
    assert((a << 7 | b << 6 | c << 5 | d << 4 | e << 3 | g << 2 | h << 1 | 0x1) & 0x40u8 != 0
        <==> b == 1) by (bit_vector)
        requires
            a <= 1 && b <= 1 && c <= 1 && d <= 1 && e <= 1 && g <= 1 && h <= 1,
    ;
    assert((a << 7 | b << 6 | c << 5 | d << 4 | e << 3 | g << 2 | h << 1 | 0x1) & 0x20u8 != 0
        <==> c == 1) by (bit_vector)
        requires
            a <= 1 && b <= 1 && c <= 1 && d <= 1 && e <= 1 && g <= 1 && h <= 1,
    ;
    assert((a << 7 | b << 6 | c << 5 | d << 4 | e << 3 | g << 2 | h << 1 | 0x1) & 0x10u8 != 0
        <==> d == 1) by (bit_vector)
        requires
            a <= 1 && b <= 1 && c <= 1 && d <= 1 && e <= 1 && g <= 1 && h <= 1,
    ;
    assert((a << 7 | b << 6 | c << 5 | d << 4 | e << 3 | g << 2 | h << 1 | 0x1) & 0x08u8 != 0
        <==> e == 1) by (bit_vector)
        requires
            a <= 1 && b <= 1 && c <= 1 && d <= 1 && e <= 1 && g <= 1 && h <= 1,
    ;
    assert((a << 7 | b << 6 | c << 5 | d << 4 | e << 3 | g << 2 | h << 1 | 0x1) & 0x04u8 != 0
        <==> g == 1) by (bit_vector)
        requires
            a <= 1 && b <= 1 && c <= 1 && d <= 1 && e <= 1 && g <= 1 && h <= 1,
    ;
    assert((a << 7 | b << 6 | c << 5 | d << 4 | e << 3 | g << 2 | h << 1 | 0x1) & 0x02u8 != 0
        <==> h == 1) by (bit_vector)
        requires
            a <= 1 && b <= 1 && c <= 1 && d <= 1 && e <= 1 && g <= 1 && h <= 1,
    ;
    assert((a << 7 | b << 6 | c << 5 | d << 4 | e << 3 | g << 2 | h << 1 | 0x1) & 0x01u8 != 0) by (
    bit_vector);
    assert(byte == (a << 7 | b << 6 | c << 5 | d << 4 | e << 3 | g << 2 | h << 1 | 0x1));
}

/// Bounds of the small bit-masked fields that the parser reads.
pub proof fn lemma_u8_mask_bounds()
    by (bit_vector)
    ensures
        forall|b: u8| #[trigger] (b & 0x0f) <= 15,
        forall|b: u8| #[trigger] (b & 0x1f) <= 31,
        forall|b: u8| #[trigger] (b & 0x3f) <= 63,
        forall|b: u8| #[trigger] ((b & 0x30) >> 4) <= 3,
        forall|b: u8| #[trigger] ((b & 0x70) >> 4) <= 7,
        forall|b: u8| #[trigger] ((b & 0xf0) >> 4) <= 15,
{
}

/// The running byte sum, modulo 256, of a byte sequence; the CDP checksum is
/// built from it.
pub open spec fn sum_mod_256(s: Seq<u8>) -> u8
    decreases s.len(),
{
    if s.len() == 0 {
        0
    } else {
        ((sum_mod_256(s.drop_last()) + s.last()) % 256) as u8
    }
}

/// The checksum byte that makes the byte sum of a packet zero: the
/// two's-complement negation of the sum of all preceding bytes.
pub open spec fn checksum_byte(s: Seq<u8>) -> u8 {
    ((256 - sum_mod_256(s)) % 256) as u8
}

/// Unfolding of [`sum_mod_256`] over a prefix growing by one byte.
pub proof fn lemma_sum_mod_256_take(s: Seq<u8>, i: int)
    requires
        0 <= i < s.len(),
    ensures
        sum_mod_256(s.take(i + 1)) == ((sum_mod_256(s.take(i)) + s[i]) % 256) as u8,
{
    assert(s.take(i + 1).drop_last() =~= s.take(i));
    assert(s.take(i + 1).last() == s[i]);
}

/// The byte sum distributes over concatenation.
pub proof fn lemma_sum_mod_256_concat(a: Seq<u8>, b: Seq<u8>)
    ensures
        sum_mod_256(a + b) == ((sum_mod_256(a) + sum_mod_256(b)) % 256) as u8,
    decreases b.len(),
{
    if b.len() == 0 {
        assert(a + b =~= a);
    } else {
        lemma_sum_mod_256_concat(a, b.drop_last());
        assert((a + b).drop_last() =~= a + b.drop_last());
        assert((a + b).last() == b.last());
        let sa = sum_mod_256(a) as int;
        let sd = sum_mod_256(b.drop_last()) as int;
        let bl = b.last() as int;
        assert(sum_mod_256(a + b) == ((sa + sd) % 256 + bl) % 256);
        assert(sum_mod_256(b) == (sd + bl) % 256);
        assert(((sa + sd) % 256 + bl) % 256 == (sa + sd + bl) % 256) by {
            vstd::arithmetic::div_mod::lemma_add_mod_noop(sa + sd, bl, 256);
            vstd::arithmetic::div_mod::lemma_mod_twice(sa + sd, 256);
            vstd::arithmetic::div_mod::lemma_add_mod_noop((sa + sd) % 256, bl, 256);
            vstd::arithmetic::div_mod::lemma_mod_twice(bl, 256);
        }
        assert((sa + (sd + bl) % 256) % 256 == (sa + sd + bl) % 256) by {
            vstd::arithmetic::div_mod::lemma_add_mod_noop(sa, sd + bl, 256);
            vstd::arithmetic::div_mod::lemma_mod_twice(sa, 256);
            vstd::arithmetic::div_mod::lemma_mod_twice(sd + bl, 256);
            vstd::arithmetic::div_mod::lemma_add_mod_noop(sa % 256, (sd + bl) % 256, 256);
            vstd::arithmetic::div_mod::lemma_add_mod_noop(sa, (sd + bl) % 256, 256);
        }
    }
}

} // verus!
