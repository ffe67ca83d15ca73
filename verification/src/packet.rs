//! A [`Packet`] struct and associated infrastructure to read an MPEG Transport Stream packet
use crate::pes;
use vstd::prelude::*;

verus! {

/// The value `0x47`, which must appear in the first byte of every transport stream packet.
pub const SYNC_BYTE: u8 = 0x47;

/// The fixed 188 byte size of a transport stream packet.
pub const PACKET_SIZE: usize = 188;

const FIXED_HEADER_SIZE: usize = 4;

// when AF present, a 1-byte 'length' field precedes the content,
const ADAPTATION_FIELD_OFFSET: usize = 5;

/// A Packet Identifier: the 13-bit value identifying the sub-stream to which a transport stream
/// packet belongs.
#[derive(Copy, Clone, PartialEq, Eq, Structural, Hash, Debug)]
pub struct Pid(u16);

/// The `Pid` holding the given value.
pub closed spec fn pid_of(v: u16) -> Pid {
    Pid(v)
}

impl View for Pid {
    type V = u16;

    closed spec fn view(&self) -> u16 {
        self.0
    }
}

impl Pid {
    #[verifier::type_invariant]
    spec fn inv(self) -> bool {
        self.0 < 0x2000
    }

    /// The number of distinct Pid values (the value is a 13-bit quantity).
    pub const PID_COUNT: usize = 0x2000;

    /// Construct a Pid from the given 13-bit value.
    pub fn new(pid: u16) -> (r: Pid)
        requires
            pid < 0x2000,
        ensures
            r@ == pid,
            r == pid_of(pid),
    {
        Pid(pid)
    }

    /// The numeric value of this Pid.
    pub fn as_u16(self) -> (r: u16)
        ensures
            r == self@,
            r < 0x2000,
    {
        proof {
            use_type_invariant(&self);
        }
        self.0
    }

    /// The numeric value of this Pid, for use as an index.
    pub fn as_usize(self) -> (r: usize)
        ensures
            r == self@,
            r < 0x2000,
    {
        proof {
            use_type_invariant(&self);
        }
        self.0 as usize
    }

    /// The Pid with the given 13-bit value.
    pub proof fn lemma_pid_of(v: u16)
        requires
            v < 0x2000,
        ensures
            pid_of(v)@ == v,
    {
    }

    /// A Pid is the Pid of its own value.
    pub proof fn lemma_pid_of_view(p: Pid)
        ensures
            pid_of(p@) == p,
    {
    }

    /// Two Pids are equal exactly when their numeric values are.
    pub proof fn lemma_eq(a: Pid, b: Pid)
        ensures
            (a == b) == (a@ == b@),
    {
    }
}

/// the different values indicating whether a `Packet`'s `adaptation_field()` and `payload()`
/// methods will return `Some` or `None`.
#[derive(Eq, PartialEq, Structural, Debug, Clone, Copy)]
pub enum AdaptationControl {
    /// The transport stream packet `adaptation_control` field uses the value `0b00`, which is
    /// not defined by the spec.
    Reserved,
    /// indicates that this packet contains a payload, but not an adaptation field
    PayloadOnly,
    /// indicates that this packet contains an adaptation field, but not a payload
    AdaptationFieldOnly,
    /// indicates that this packet contains both an adaptation field and a payload
    AdaptationFieldAndPayload,
}

/// The `AdaptationControl` value denoted by the given 2-bit field value.
pub open spec fn spec_adaptation_control(val: u8) -> AdaptationControl {
    if val == 0 {
        AdaptationControl::Reserved
    } else if val == 1 {
        AdaptationControl::PayloadOnly
    } else if val == 2 {
        AdaptationControl::AdaptationFieldOnly
    } else {
        AdaptationControl::AdaptationFieldAndPayload
    }
}

impl AdaptationControl {
    /// The value denoted by the given 2-bit `adaptation_field_control` field value.
    pub fn from(val: u8) -> (r: AdaptationControl)
        requires
            val < 4,
        ensures
            r == spec_adaptation_control(val),
    {
        match val {
            0 => AdaptationControl::Reserved,
            1 => AdaptationControl::PayloadOnly,
            2 => AdaptationControl::AdaptationFieldOnly,
            _ => AdaptationControl::AdaptationFieldAndPayload,
        }
    }

    /// `true` for the values which indicate that a payload is present.
    pub fn has_payload(self) -> (r: bool)
        ensures
            r == (self is PayloadOnly || self is AdaptationFieldAndPayload),
    {
        match self {
            AdaptationControl::Reserved | AdaptationControl::AdaptationFieldOnly => false,
            AdaptationControl::PayloadOnly | AdaptationControl::AdaptationFieldAndPayload => true,
        }
    }
}

/// The value of the `transport_scrambling_control` field.
#[derive(Eq, PartialEq, Structural, Debug, Clone, Copy)]
pub enum TransportScramblingControl {
    /// The packet payload is not scrambled
    NotScrambled,
    /// Some scrambling mode not defined by _ISO/IEC 13818-1_ (values 1 to 3)
    Undefined(u8),
}

impl TransportScramblingControl {
    /// The value denoted by the given 2-bit field value.
    pub fn from(val: u8) -> (r: TransportScramblingControl)
        requires
            val < 4,
        ensures
            val == 0 ==> r == TransportScramblingControl::NotScrambled,
            val != 0 ==> r == TransportScramblingControl::Undefined(val),
    {
        if val == 0 {
            TransportScramblingControl::NotScrambled
        } else {
            TransportScramblingControl::Undefined(val)
        }
    }
}

/// Program Clock Reference: a 33-bit `base` in 90kHz units and a 9-bit `extension` in 27MHz
/// units.
#[derive(PartialEq, Eq, Structural, Debug, Clone, Copy)]
pub struct PCR {
    base: u64,
    extension: u16,
}

impl View for PCR {
    type V = (u64, u16);

    closed spec fn view(&self) -> (u64, u16) {
        (self.base, self.extension)
    }
}

/// The `base` field of the 6-byte clock reference syntax used for PCR and OPCR.
pub open spec fn spec_pcr_base(s: Seq<u8>) -> int {
    s[0] * 0x200_0000 + s[1] * 0x2_0000 + s[2] * 0x200 + s[3] * 2 + s[4] / 128
}

/// The `extension` field of the 6-byte clock reference syntax used for PCR and OPCR.
pub open spec fn spec_pcr_extension(s: Seq<u8>) -> int {
    (s[4] % 2) * 256 + s[5]
}

impl PCR {
    #[verifier::type_invariant]
    spec fn inv(self) -> bool {
        self.base < 0x2_0000_0000 && self.extension < 0x200
    }

    /// Parse a clock reference from the first 6 bytes of the given slice.
    pub fn from_slice(data: &[u8]) -> (r: PCR)
        requires
            data@.len() >= 6,
        ensures
            r@.0 == spec_pcr_base(data@),
            r@.1 == spec_pcr_extension(data@),
    {
        PCR {
            base: data[0] as u64 * 0x200_0000 + data[1] as u64 * 0x2_0000 + data[2] as u64 * 0x200
                + data[3] as u64 * 2 + (data[4] / 128) as u64,
            extension: (data[4] % 2) as u16 * 256 + data[5] as u16,
        }
    }

    /// Construct a clock reference from its parts; `base` must not exceed 2^33-1, and
    /// `extension` must not exceed 2^9-1.
    pub fn from_parts(base: u64, extension: u16) -> (r: PCR)
        requires
            base < 0x2_0000_0000,
            extension < 0x200,
        ensures
            r@ == (base, extension),
    {
        PCR { base, extension }
    }

    /// The 33-bit `base` part of the clock reference, in units of 90kHz.
    pub fn base(&self) -> (r: u64)
        ensures
            r == self@.0,
            r < 0x2_0000_0000,
    {
        proof {
            use_type_invariant(self);
        }
        self.base
    }

    /// The 9-bit `extension` part of the clock reference, in units of 27MHz.
    pub fn extension(&self) -> (r: u16)
        ensures
            r == self@.1,
            r < 0x200,
    {
        proof {
            use_type_invariant(self);
        }
        self.extension
    }
}

impl vstd::std_specs::convert::FromSpecImpl<PCR> for u64 {
    open spec fn obeys_from_spec() -> bool {
        true
    }

    open spec fn from_spec(v: PCR) -> u64 {
        (v@.0 * 300 + v@.1) as u64
    }
}

impl From<PCR> for u64 {
    /// The clock reference as a single value in units of 27MHz: `base * 300 + extension`.
    fn from(pcr: PCR) -> (r: u64) {
        proof {
            use_type_invariant(&pcr);
        }
        pcr.base * 300 + pcr.extension as u64
    }
}

/// Errors produced when reading the optional fields of an adaptation field.
#[derive(Debug, PartialEq, Eq, Structural, Clone, Copy)]
pub enum AdaptationFieldError {
    /// The requested field is not signalled as present by the adaptation field flags
    FieldNotPresent,
    /// The adaptation field is too short to hold the requested field
    NotEnoughData,
    /// The `DTS_next_AU` timestamp within the `seamless_splice` data could not be parsed
    SpliceTimestampError(pes::TimestampError),
}

/// The sub-slice `s[from..to]` when `to` does not run past the end of `s`; otherwise the
/// `NotEnoughData` error.
pub open spec fn spec_af_slice(s: Seq<u8>, from: int, to: int) -> Result<Seq<u8>, AdaptationFieldError> {
    if to > s.len() {
        Err(AdaptationFieldError::NotEnoughData)
    } else {
        Ok(s.subrange(from, to))
    }
}

/// The adaptation field flag byte's `PCR_flag`.
pub open spec fn af_pcr_flag(s: Seq<u8>) -> bool {
    (s[0] / 16) % 2 == 1
}

/// The adaptation field flag byte's `OPCR_flag`.
pub open spec fn af_opcr_flag(s: Seq<u8>) -> bool {
    (s[0] / 8) % 2 == 1
}

/// The adaptation field flag byte's `splicing_point_flag`.
pub open spec fn af_splicing_point_flag(s: Seq<u8>) -> bool {
    (s[0] / 4) % 2 == 1
}

/// The adaptation field flag byte's `transport_private_data_flag`.
pub open spec fn af_transport_private_data_flag(s: Seq<u8>) -> bool {
    (s[0] / 2) % 2 == 1
}

/// The adaptation field flag byte's `adaptation_field_extension_flag`.
pub open spec fn af_extension_flag(s: Seq<u8>) -> bool {
    s[0] % 2 == 1
}

/// Offset of the `OPCR` field: after the flag byte and any `PCR`.
pub open spec fn af_opcr_offset(s: Seq<u8>) -> int {
    1 + if af_pcr_flag(s) { 6int } else { 0int }
}

/// Offset of the `splice_countdown` field: after any `OPCR`.
pub open spec fn af_splice_countdown_offset(s: Seq<u8>) -> int {
    af_opcr_offset(s) + if af_opcr_flag(s) { 6int } else { 0int }
}

/// Offset of the `transport_private_data_length` field: after any `splice_countdown`.
pub open spec fn af_transport_private_data_offset(s: Seq<u8>) -> int {
    af_splice_countdown_offset(s) + if af_splicing_point_flag(s) { 1int } else { 0int }
}

/// Offset of the `adaptation_field_extension_length` field: after any transport private data,
/// or `NotEnoughData` when the private data length byte lies beyond the end of the field.
pub open spec fn af_extension_offset(s: Seq<u8>) -> Result<int, AdaptationFieldError> {
    let off = af_transport_private_data_offset(s);
    if af_transport_private_data_flag(s) {
        if off + 1 > s.len() {
            Err(AdaptationFieldError::NotEnoughData)
        } else {
            Ok(off + s[off] + 1)
        }
    } else {
        Ok(off)
    }
}

/// A collection of fields that may optionally appear within the header of a transport stream
/// `Packet`.
#[derive(Debug)]
pub struct AdaptationField<'buf> {
    buf: &'buf [u8],
}

impl<'buf> View for AdaptationField<'buf> {
    type V = Seq<u8>;

    closed spec fn view(&self) -> Seq<u8> {
        self.buf@
    }
}

impl<'buf> AdaptationField<'buf> {
    /// Wrap the given adaptation field bytes (following the `adaptation_field_length` byte).
    pub fn new(buf: &'buf [u8]) -> (r: AdaptationField<'buf>)
        ensures
            r@ == buf@,
    {
        AdaptationField { buf }
    }

    /// The `discontinuity_indicator` flag.
    pub fn discontinuity_indicator(&self) -> (r: bool)
        requires
            self@.len() >= 1,
        ensures
            r == (self@[0] >= 128),
    {
        self.buf[0] >= 128
    }

    /// The `random_access_indicator` flag.
    pub fn random_access_indicator(&self) -> (r: bool)
        requires
            self@.len() >= 1,
        ensures
            r == ((self@[0] / 64) % 2 == 1),
    {
        (self.buf[0] / 64) % 2 == 1
    }

    /// The 1-bit `elementary_stream_priority_indicator` field.
    pub fn elementary_stream_priority_indicator(&self) -> (r: u8)
        requires
            self@.len() >= 1,
        ensures
            r == (self@[0] / 32) % 2,
    {
        (self.buf[0] / 32) % 2
    }

    fn pcr_flag(&self) -> (r: bool)
        requires
            self@.len() >= 1,
        ensures
            r == af_pcr_flag(self@),
    {
        (self.buf[0] / 16) % 2 == 1
    }

    fn opcr_flag(&self) -> (r: bool)
        requires
            self@.len() >= 1,
        ensures
            r == af_opcr_flag(self@),
    {
        (self.buf[0] / 8) % 2 == 1
    }

    fn splicing_point_flag(&self) -> (r: bool)
        requires
            self@.len() >= 1,
        ensures
            r == af_splicing_point_flag(self@),
    {
        (self.buf[0] / 4) % 2 == 1
    }

    fn transport_private_data_flag(&self) -> (r: bool)
        requires
            self@.len() >= 1,
        ensures
            r == af_transport_private_data_flag(self@),
    {
        (self.buf[0] / 2) % 2 == 1
    }

    fn adaptation_field_extension_flag(&self) -> (r: bool)
        requires
            self@.len() >= 1,
        ensures
            r == af_extension_flag(self@),
    {
        self.buf[0] % 2 == 1
    }

    fn slice(&self, from: usize, to: usize) -> (r: Result<&'buf [u8], AdaptationFieldError>)
        requires
            from <= to,
        ensures
            match r {
                Ok(sl) => spec_af_slice(self@, from as int, to as int) == Ok::<Seq<u8>, AdaptationFieldError>(sl@),
                Err(e) => spec_af_slice(self@, from as int, to as int) == Err::<Seq<u8>, AdaptationFieldError>(e),
            },
    {
        if to > self.buf.len() {
            Err(AdaptationFieldError::NotEnoughData)
        } else {
            Ok(&self.buf[from..to])
        }
    }

    const PCR_SIZE: usize = 6;

    /// The Program Clock Reference, if present.
    pub fn pcr(&self) -> (r: Result<PCR, AdaptationFieldError>)
        requires
            self@.len() >= 1,
        ensures
            !af_pcr_flag(self@) ==> r == Err::<PCR, AdaptationFieldError>(AdaptationFieldError::FieldNotPresent),
            af_pcr_flag(self@) && self@.len() < 7 ==> r == Err::<PCR, AdaptationFieldError>(AdaptationFieldError::NotEnoughData),
            af_pcr_flag(self@) && self@.len() >= 7 ==> (r matches Ok(p) && p@.0 == spec_pcr_base(self@.subrange(1, 7))
                && p@.1 == spec_pcr_extension(self@.subrange(1, 7))),
    {
        if self.pcr_flag() {
            Ok(PCR::from_slice(self.slice(1, 1 + Self::PCR_SIZE)?))
        } else {
            Err(AdaptationFieldError::FieldNotPresent)
        }
    }

    fn opcr_offset(&self) -> (r: usize)
        requires
            self@.len() >= 1,
        ensures
            r == af_opcr_offset(self@),
    {
        if self.pcr_flag() {
            1 + Self::PCR_SIZE
        } else {
            1
        }
    }

    /// Returns the 'Original Program Clock Reference' value, if present.
    pub fn opcr(&self) -> (r: Result<PCR, AdaptationFieldError>)
        requires
            self@.len() >= 1,
        ensures
            ({
                let off = af_opcr_offset(self@);
                &&& !af_opcr_flag(self@) ==> r == Err::<PCR, AdaptationFieldError>(AdaptationFieldError::FieldNotPresent)
                &&& af_opcr_flag(self@) && self@.len() < off + 6 ==> r == Err::<PCR, AdaptationFieldError>(AdaptationFieldError::NotEnoughData)
                &&& af_opcr_flag(self@) && self@.len() >= off + 6 ==> (r matches Ok(p)
                    && p@.0 == spec_pcr_base(self@.subrange(off, off + 6))
                    && p@.1 == spec_pcr_extension(self@.subrange(off, off + 6)))
            }),
    {
        if self.opcr_flag() {
            let off = self.opcr_offset();
            Ok(PCR::from_slice(self.slice(off, off + Self::PCR_SIZE)?))
        } else {
            Err(AdaptationFieldError::FieldNotPresent)
        }
    }

    fn splice_countdown_offset(&self) -> (r: usize)
        requires
            self@.len() >= 1,
        ensures
            r == af_splice_countdown_offset(self@),
    {
        self.opcr_offset() + if self.opcr_flag() {
            Self::PCR_SIZE
        } else {
            0
        }
    }

    /// The `splice_countdown` value, if present.
    pub fn splice_countdown(&self) -> (r: Result<u8, AdaptationFieldError>)
        requires
            self@.len() >= 1,
        ensures
            ({
                let off = af_splice_countdown_offset(self@);
                &&& !af_splicing_point_flag(self@) ==> r == Err::<u8, AdaptationFieldError>(AdaptationFieldError::FieldNotPresent)
                &&& af_splicing_point_flag(self@) && self@.len() < off + 1 ==> r == Err::<u8, AdaptationFieldError>(AdaptationFieldError::NotEnoughData)
                &&& af_splicing_point_flag(self@) && self@.len() >= off + 1 ==> r == Ok::<u8, AdaptationFieldError>(self@[off])
            }),
    {
        if self.splicing_point_flag() {
            let off = self.splice_countdown_offset();
            Ok(self.slice(off, off + 1)?[0])
        } else {
            Err(AdaptationFieldError::FieldNotPresent)
        }
    }

    fn transport_private_data_offset(&self) -> (r: usize)
        requires
            self@.len() >= 1,
        ensures
            r == af_transport_private_data_offset(self@),
    {
        self.splice_countdown_offset() + if self.splicing_point_flag() {
            1
        } else {
            0
        }
    }

    /// The `private_data_byte` values, if present.
    pub fn transport_private_data(&self) -> (r: Result<&'buf [u8], AdaptationFieldError>)
        requires
            self@.len() >= 1,
        ensures
            ({
                let off = af_transport_private_data_offset(self@);
                &&& !af_transport_private_data_flag(self@) ==> (r matches Err(e) && e == AdaptationFieldError::FieldNotPresent)
                &&& af_transport_private_data_flag(self@) && (self@.len() < off + 1
                    || self@.len() < off + 1 + self@[off]) ==> (r matches Err(e) && e == AdaptationFieldError::NotEnoughData)
                &&& af_transport_private_data_flag(self@) && self@.len() >= off + 1 + self@[off]
                    && self@.len() >= off + 1 ==> (r matches Ok(d) && d@ == self@.subrange(off + 1, off + 1 + self@[off]))
            }),
    {
        if self.transport_private_data_flag() {
            let off = self.transport_private_data_offset();
            let len = self.slice(off, off + 1)?[0] as usize;
            Ok(self.slice(off + 1, off + 1 + len)?)
        } else {
            Err(AdaptationFieldError::FieldNotPresent)
        }
    }

    fn adaptation_field_extension_offset(&self) -> (r: Result<usize, AdaptationFieldError>)
        requires
            self@.len() >= 1,
        ensures
            match r {
                Ok(o) => af_extension_offset(self@) == Ok::<int, AdaptationFieldError>(o as int),
                Err(e) => af_extension_offset(self@) == Err::<int, AdaptationFieldError>(e),
            },
    {
        let off = self.transport_private_data_offset();
        Ok(off + if self.transport_private_data_flag() {
            let len = self.slice(off, off + 1)?[0] as usize;
            len + 1
        } else {
            0
        })
    }

    /// The adaptation field extension, if present.
    pub fn adaptation_field_extension(&self) -> (r: Result<AdaptationFieldExtension<'buf>, AdaptationFieldError>)
        requires
            self@.len() >= 1,
        ensures
            !af_extension_flag(self@) ==> (r matches Err(e) && e == AdaptationFieldError::FieldNotPresent),
            af_extension_flag(self@) ==> match af_extension_offset(self@) {
                Err(e) => (r matches Err(e2) && e2 == e),
                Ok(off) => if self@.len() < off + 1 || self@.len() < off + 1 + self@[off] {
                    (r matches Err(e) && e == AdaptationFieldError::NotEnoughData)
                } else {
                    (r matches Ok(x) && x@ == self@.subrange(off + 1, off + 1 + self@[off]))
                },
            },
    {
        if self.adaptation_field_extension_flag() {
            let off = self.adaptation_field_extension_offset()?;
            let len = self.slice(off, off + 1)?[0] as usize;
            Ok(AdaptationFieldExtension::new(self.slice(off + 1, off + 1 + len)?))
        } else {
            Err(AdaptationFieldError::FieldNotPresent)
        }
    }
}

/// Offset of the `piecewise_rate` field within an adaptation field extension.
pub open spec fn afe_piecewise_rate_offset(s: Seq<u8>) -> int {
    1 + if s[0] >= 128 { 2int } else { 0int }
}

/// Offset of the `seamless_splice` fields within an adaptation field extension.
pub open spec fn afe_seamless_splice_offset(s: Seq<u8>) -> int {
    afe_piecewise_rate_offset(s) + if (s[0] / 64) % 2 == 1 { 3int } else { 0int }
}

/// Optional extensions within an [`AdaptationField`].
#[derive(Debug)]
pub struct AdaptationFieldExtension<'buf> {
    buf: &'buf [u8],
}

impl<'buf> View for AdaptationFieldExtension<'buf> {
    type V = Seq<u8>;

    closed spec fn view(&self) -> Seq<u8> {
        self.buf@
    }
}

impl<'buf> AdaptationFieldExtension<'buf> {
    /// Wrap the given adaptation field extension bytes (following the length byte).
    pub fn new(buf: &'buf [u8]) -> (r: AdaptationFieldExtension<'buf>)
        ensures
            r@ == buf@,
    {
        AdaptationFieldExtension { buf }
    }

    fn slice(&self, from: usize, to: usize) -> (r: Result<&'buf [u8], AdaptationFieldError>)
        requires
            from <= to,
        ensures
            match r {
                Ok(sl) => spec_af_slice(self@, from as int, to as int) == Ok::<Seq<u8>, AdaptationFieldError>(sl@),
                Err(e) => spec_af_slice(self@, from as int, to as int) == Err::<Seq<u8>, AdaptationFieldError>(e),
            },
    {
        if to > self.buf.len() {
            Err(AdaptationFieldError::NotEnoughData)
        } else {
            Ok(&self.buf[from..to])
        }
    }

    fn ltw_flag(&self) -> (r: bool)
        requires
            self@.len() >= 1,
        ensures
            r == (self@[0] >= 128),
    {
        self.buf[0] >= 128
    }

    fn piecewise_rate_flag(&self) -> (r: bool)
        requires
            self@.len() >= 1,
        ensures
            r == ((self@[0] / 64) % 2 == 1),
    {
        (self.buf[0] / 64) % 2 == 1
    }

    fn seamless_splice_flag(&self) -> (r: bool)
        requires
            self@.len() >= 1,
        ensures
            r == ((self@[0] / 32) % 2 == 1),
    {
        (self.buf[0] / 32) % 2 == 1
    }

    /// Returns the 'Legal time window offset', if any.
    pub fn ltw_offset(&self) -> (r: Result<Option<u16>, AdaptationFieldError>)
        requires
            self@.len() >= 1,
        ensures
            self@[0] < 128 ==> (r matches Err(e) && e == AdaptationFieldError::FieldNotPresent),
            self@[0] >= 128 && self@.len() < 3 ==> (r matches Err(e) && e == AdaptationFieldError::NotEnoughData),
            self@[0] >= 128 && self@.len() >= 3 && self@[1] < 128 ==> r == Ok::<Option<u16>, AdaptationFieldError>(None),
            self@[0] >= 128 && self@.len() >= 3 && self@[1] >= 128 ==> (r matches Ok(Some(v))
                && v == (self@[1] % 128) * 256 + self@[2]),
    {
        if self.ltw_flag() {
            let dat = self.slice(1, 3)?;
            let ltw_valid_flag = dat[0] >= 128;
            Ok(if ltw_valid_flag {
                Some((dat[0] % 128) as u16 * 256 + dat[1] as u16)
            } else {
                None
            })
        } else {
            Err(AdaptationFieldError::FieldNotPresent)
        }
    }

    fn piecewise_rate_offset(&self) -> (r: usize)
        requires
            self@.len() >= 1,
        ensures
            r == afe_piecewise_rate_offset(self@),
    {
        1 + if self.ltw_flag() {
            2
        } else {
            0
        }
    }

    /// The 22-bit `piecewise_rate` value, if present.
    pub fn piecewise_rate(&self) -> (r: Result<u32, AdaptationFieldError>)
        requires
            self@.len() >= 1,
        ensures
            ({
                let off = afe_piecewise_rate_offset(self@);
                &&& (self@[0] / 64) % 2 == 0 ==> r == Err::<u32, AdaptationFieldError>(AdaptationFieldError::FieldNotPresent)
                &&& (self@[0] / 64) % 2 == 1 && self@.len() < off + 3 ==> r == Err::<u32, AdaptationFieldError>(AdaptationFieldError::NotEnoughData)
                &&& (self@[0] / 64) % 2 == 1 && self@.len() >= off + 3 ==> (r matches Ok(v)
                    && v == (self@[off] % 64) * 0x1_0000 + self@[off + 1] * 256 + self@[off + 2])
            }),
    {
        if self.piecewise_rate_flag() {
            let off = self.piecewise_rate_offset();
            let dat = self.slice(off, off + 3)?;
            Ok((dat[0] % 64) as u32 * 0x1_0000 + dat[1] as u32 * 256 + dat[2] as u32)
        } else {
            Err(AdaptationFieldError::FieldNotPresent)
        }
    }

    fn seamless_splice_offset(&self) -> (r: usize)
        requires
            self@.len() >= 1,
        ensures
            r == afe_seamless_splice_offset(self@),
    {
        self.piecewise_rate_offset() + if self.piecewise_rate_flag() {
            3
        } else {
            0
        }
    }

    /// The `splice_type` and `DTS_next_AU` values, if present.
    pub fn seamless_splice(&self) -> (r: Result<SeamlessSplice, AdaptationFieldError>)
        requires
            self@.len() >= 1,
        ensures
            ({
                let off = afe_seamless_splice_offset(self@);
                let dat = self@.subrange(off, off + 5);
                &&& (self@[0] / 32) % 2 == 0 ==> (r matches Err(e) && e == AdaptationFieldError::FieldNotPresent)
                &&& (self@[0] / 32) % 2 == 1 && self@.len() < off + 5 ==> (r matches Err(e) && e == AdaptationFieldError::NotEnoughData)
                &&& (self@[0] / 32) % 2 == 1 && self@.len() >= off + 5 ==> match pes::spec_timestamp(dat) {
                    Ok(v) => (r matches Ok(sp) && sp.splice_type == dat[0] / 16 && sp.dts_next_au@ == v),
                    Err(te) => (r matches Err(e) && e == AdaptationFieldError::SpliceTimestampError(te)),
                }
            }),
    {
        if self.seamless_splice_flag() {
            let off = self.seamless_splice_offset();
            let dat = self.slice(off, off + 5)?;
            match pes::Timestamp::from_bytes(dat) {
                Ok(dts_next_au) => Ok(SeamlessSplice { splice_type: dat[0] / 16, dts_next_au }),
                Err(e) => Err(AdaptationFieldError::SpliceTimestampError(e)),
            }
        } else {
            Err(AdaptationFieldError::FieldNotPresent)
        }
    }
}

/// The `splice_type` and `DTS_next_AU` fields of an adaptation field extension.
#[derive(Debug, PartialEq, Eq, Structural, Clone, Copy)]
pub struct SeamlessSplice {
    /// 4-bit `splice_type` value
    pub splice_type: u8,
    /// decoding time of the first access unit following the splice point
    pub dts_next_au: pes::Timestamp,
}

/// A counter value used within a transport stream to detect discontinuities in a sequence of
/// packets.  The continuity counter should increase by one for each packet with a given PID for
/// which `adaptation_control` indicates that a payload should be present.
#[derive(PartialEq, Eq, Structural, Debug, Clone, Copy)]
pub struct ContinuityCounter {
    val: u8,
}

impl View for ContinuityCounter {
    type V = u8;

    closed spec fn view(&self) -> u8 {
        self.val
    }
}

impl ContinuityCounter {
    #[verifier::type_invariant]
    spec fn inv(self) -> bool {
        self.val < 16
    }

    /// Construct a counter with the given value, which must not exceed 15.
    pub fn new(count: u8) -> (r: ContinuityCounter)
        requires
            count < 16,
        ensures
            r@ == count,
    {
        ContinuityCounter { val: count }
    }

    /// Returns this counter's value, which will be between 0 and 15 inclusive.
    pub fn count(&self) -> (r: u8)
        ensures
            r == self@,
            r < 16,
    {
        proof {
            use_type_invariant(self);
        }
        self.val
    }

    /// true iff the given `ContinuityCounter` value follows this one.  The maximum counter value
    /// is 15, after which the counter 'wraps around' to 0.
    pub fn follows(&self, other: ContinuityCounter) -> (r: bool)
        ensures
            r == (self@ == (other@ + 1) % 16),
    {
        proof {
            use_type_invariant(&other);
        }
        (other.val + 1) % 16 == self.val
    }
}

/// `true` when the bytes form a well-formed transport stream packet: exactly 188 bytes, starting
/// with the sync byte.
pub open spec fn spec_packet_ok(s: Seq<u8>) -> bool {
    s.len() == 188 && s[0] == 0x47
}

/// The 13-bit `PID` field of the packet header.
pub open spec fn spec_packet_pid(s: Seq<u8>) -> u16 {
    ((s[1] % 32) * 256 + s[2]) as u16
}

/// The 2-bit `adaptation_field_control` field of the packet header.
pub open spec fn spec_packet_adaptation_control(s: Seq<u8>) -> AdaptationControl {
    spec_adaptation_control((s[3] / 16) % 4)
}

/// The offset of the first byte after the packet header and any adaptation field.
pub open spec fn spec_packet_content_offset(s: Seq<u8>) -> int {
    match spec_packet_adaptation_control(s) {
        AdaptationControl::Reserved | AdaptationControl::PayloadOnly => 4,
        _ => 5 + s[4],
    }
}

/// The range of bytes holding the packet's adaptation field, when the packet has one with a
/// permitted length.
pub open spec fn spec_packet_adaptation_field(s: Seq<u8>) -> Option<Seq<u8>> {
    match spec_packet_adaptation_control(s) {
        AdaptationControl::Reserved | AdaptationControl::PayloadOnly => None,
        AdaptationControl::AdaptationFieldOnly => if s[4] != 183 {
            None
        } else {
            Some(s.subrange(5, 5 + s[4]))
        },
        AdaptationControl::AdaptationFieldAndPayload => if s[4] > 182 {
            None
        } else {
            Some(s.subrange(5, 5 + s[4]))
        },
    }
}

/// The packet's payload bytes, when the packet has a non-empty payload.
pub open spec fn spec_packet_payload(s: Seq<u8>) -> Option<Seq<u8>> {
    match spec_packet_adaptation_control(s) {
        AdaptationControl::Reserved | AdaptationControl::AdaptationFieldOnly => None,
        _ => if spec_packet_content_offset(s) >= s.len() {
            None
        } else {
            Some(s.subrange(spec_packet_content_offset(s), s.len() as int))
        },
    }
}

/// A transport stream `Packet` is a wrapper around a byte slice which allows the bytes to be
/// interpreted as a packet structure per _ISO/IEC 13818-1, Section 2.4.3.3_.
#[derive(Debug)]
pub struct Packet<'buf> {
    buf: &'buf [u8],
}

impl<'buf> View for Packet<'buf> {
    type V = Seq<u8>;

    closed spec fn view(&self) -> Seq<u8> {
        self.buf@
    }
}

impl<'buf> Packet<'buf> {
    #[verifier::type_invariant]
    spec fn inv(self) -> bool {
        spec_packet_ok(self.buf@)
    }

    /// The fixed 188 byte size of a transport stream packet.
    pub const SIZE: usize = 188;

    /// returns `true` if the given value is a valid synchronisation byte, the value `0x47`, which
    /// must appear at the start of every transport stream packet.
    pub fn is_sync_byte(b: u8) -> (r: bool)
        ensures
            r == (b == SYNC_BYTE),
    {
        b == SYNC_BYTE
    }

    /// Wrap the given 188-byte buffer, which must start with the sync-byte (`0x47`).  Calling
    /// code is expected to have already checked those conditions.
    pub fn new(buf: &'buf [u8]) -> (r: Packet<'buf>)
        requires
            spec_packet_ok(buf@),
        ensures
            r@ == buf@,
    {
        Packet { buf }
    }

    /// Wrap the given buffer if it is 188 bytes long and starts with the sync-byte, or produce
    /// `None` otherwise.
    pub fn try_new(buf: &'buf [u8]) -> (r: Option<Packet<'buf>>)
        ensures
            r is Some <==> spec_packet_ok(buf@),
            r matches Some(p) ==> p@ == buf@,
    {
        if buf.len() == PACKET_SIZE && Packet::is_sync_byte(buf[0]) {
            Some(Packet { buf })
        } else {
            None
        }
    }

    /// Every packet is 188 bytes long, starting with the sync byte.
    pub(crate) fn lemma_well_formed(&self)
        ensures
            spec_packet_ok(self@),
    {
        proof {
            use_type_invariant(self);
        }
    }

    /// The `transport_error_indicator` flag.
    pub fn transport_error_indicator(&self) -> (r: bool)
        ensures
            r == (self@[1] >= 128),
    {
        proof {
            use_type_invariant(self);
        }
        self.buf[1] >= 128
    }

    /// A structure larger than a single packet payload needs to be split across multiple
    /// packets; this flag indicates if this packet payload contains the start of the structure.
    /// If `false`, this packet's payload is a continuation of a structure which began in an
    /// earlier packet within the transport stream.
    pub fn payload_unit_start_indicator(&self) -> (r: bool)
        ensures
            r == ((self@[1] / 64) % 2 == 1),
    {
        proof {
            use_type_invariant(self);
        }
        (self.buf[1] / 64) % 2 == 1
    }

    /// The `transport_priority` flag.
    pub fn transport_priority(&self) -> (r: bool)
        ensures
            r == ((self@[1] / 32) % 2 == 1),
    {
        proof {
            use_type_invariant(self);
        }
        (self.buf[1] / 32) % 2 == 1
    }

    /// The sub-stream to which a particular packet belongs is indicated by this Packet
    /// Identifier value.
    pub fn pid(&self) -> (r: Pid)
        ensures
            r@ == spec_packet_pid(self@),
            r == pid_of(spec_packet_pid(self@)),
    {
        proof {
            use_type_invariant(self);
        }
        Pid::new((self.buf[1] % 32) as u16 * 256 + self.buf[2] as u16)
    }

    /// The 2-bit `transport_scrambling_control` field.
    pub fn transport_scrambling_control(&self) -> (r: TransportScramblingControl)
        ensures
            self@[3] / 64 == 0 ==> r == TransportScramblingControl::NotScrambled,
            self@[3] / 64 != 0 ==> r == TransportScramblingControl::Undefined(self@[3] / 64),
    {
        proof {
            use_type_invariant(self);
        }
        TransportScramblingControl::from(self.buf[3] / 64)
    }

    /// The returned enum value indicates if `adaptation_field()`, `payload()` or both will
    /// return something.
    pub fn adaptation_control(&self) -> (r: AdaptationControl)
        ensures
            r == spec_packet_adaptation_control(self@),
    {
        proof {
            use_type_invariant(self);
        }
        AdaptationControl::from((self.buf[3] / 16) % 4)
    }

    /// Each packet with a given `pid()` value within a transport stream should have a
    /// continuity counter value which increases by 1 from the last counter value seen.
    pub fn continuity_counter(&self) -> (r: ContinuityCounter)
        ensures
            r@ == self@[3] % 16,
    {
        proof {
            use_type_invariant(self);
        }
        ContinuityCounter::new(self.buf[3] % 16)
    }

    fn adaptation_field_length(&self) -> (r: usize)
        ensures
            r == self@[4],
    {
        proof {
            use_type_invariant(self);
        }
        self.buf[4] as usize
    }

    /// An `AdaptationField` contains additional packet headers that may be present in the
    /// packet.  `None` when `adaptation_control()` indicates no adaptation field, or when the
    /// adaptation field length is not permitted for the packet's `adaptation_control()`.
    pub fn adaptation_field(&self) -> (r: Option<AdaptationField<'buf>>)
        ensures
            match spec_packet_adaptation_field(self@) {
                None => r is None,
                Some(af) => r matches Some(a) && a@ == af,
            },
    {
        proof {
            use_type_invariant(self);
        }
        match self.adaptation_control() {
            AdaptationControl::Reserved | AdaptationControl::PayloadOnly => None,
            AdaptationControl::AdaptationFieldOnly => {
                let len = self.adaptation_field_length();
                if len != (PACKET_SIZE - ADAPTATION_FIELD_OFFSET) {
                    return None;
                }
                Some(self.mk_af(len))
            },
            AdaptationControl::AdaptationFieldAndPayload => {
                let len = self.adaptation_field_length();
                if len > 182 {
                    return None;
                }
                Some(self.mk_af(len))
            },
        }
    }

    fn mk_af(&self, len: usize) -> (r: AdaptationField<'buf>)
        requires
            len <= 183,
        ensures
            r@ == self@.subrange(5, 5 + len),
    {
        proof {
            use_type_invariant(self);
        }
        AdaptationField::new(&self.buf[ADAPTATION_FIELD_OFFSET..ADAPTATION_FIELD_OFFSET + len])
    }

    /// The data contained within the packet, not including the packet headers.  `None` when
    /// `adaptation_control()` indicates that no payload is present, or when the adaptation
    /// field leaves no room for payload bytes.  A `Some` payload is never an empty slice.
    pub fn payload(&self) -> (r: Option<&'buf [u8]>)
        ensures
            match spec_packet_payload(self@) {
                None => r is None,
                Some(p) => r matches Some(q) && q@ == p,
            },
            r matches Some(q) ==> q@.len() > 0,
    {
        proof {
            use_type_invariant(self);
        }
        match self.adaptation_control() {
            AdaptationControl::Reserved | AdaptationControl::AdaptationFieldOnly => None,
            AdaptationControl::PayloadOnly | AdaptationControl::AdaptationFieldAndPayload => self.mk_payload(),
        }
    }

    fn mk_payload(&self) -> (r: Option<&'buf [u8]>)
        ensures
            spec_packet_content_offset(self@) >= self@.len() ==> r is None,
            spec_packet_content_offset(self@) < self@.len() ==> (r matches Some(q) && q@ == self@.subrange(
                spec_packet_content_offset(self@),
                self@.len() as int,
            )),
    {
        proof {
            use_type_invariant(self);
        }
        let offset = self.content_offset();
        if offset >= self.buf.len() {
            None
        } else {
            Some(&self.buf[offset..self.buf.len()])
        }
    }

    /// borrow a reference to the underlying buffer of this packet
    pub fn buffer(&self) -> (r: &'buf [u8])
        ensures
            r@ == self@,
    {
        self.buf
    }

    fn content_offset(&self) -> (r: usize)
        ensures
            r == spec_packet_content_offset(self@),
    {
        match self.adaptation_control() {
            AdaptationControl::Reserved | AdaptationControl::PayloadOnly => FIXED_HEADER_SIZE,
            AdaptationControl::AdaptationFieldOnly | AdaptationControl::AdaptationFieldAndPayload => {
                ADAPTATION_FIELD_OFFSET + self.adaptation_field_length()
            },
        }
    }
}

/// Trait for objects which process transport stream packets one at a time.
pub trait PacketConsumer<Ret> {
    /// How handling the packet with the bytes `pk` may change this consumer (into `after`),
    /// giving the result `r`.  Any change and any result are allowed, unless an implementation
    /// says more.
    open spec fn consume_effect(&self, pk: Seq<u8>, after: &Self, r: Option<Ret>) -> bool {
        true
    }

    /// Handle the given packet.
    fn consume(&mut self, pk: Packet) -> (r: Option<Ret>)
        ensures
            old(self).consume_effect(pk@, final(self), r),
    ;
}

/// The 6 bytes of the clock reference syntax that hold the 33-bit `base` and the 9-bit
/// `extension`, with the 6 reserved bits between them set: the 33 bits of `base`, most
/// significant first, then the reserved bits, then the 9 bits of `extension`.
pub open spec fn pcr_bytes(base: int, extension: int) -> Seq<u8> {
    seq![
        (base / 0x200_0000) as u8,
        ((base / 0x2_0000) % 256) as u8,
        ((base / 0x200) % 256) as u8,
        ((base / 2) % 256) as u8,
        ((base % 2) * 128 + 0x7e + extension / 256) as u8,
        (extension % 256) as u8,
    ]
}

/// Reading a clock reference gives back the `base` and `extension` written into the 6-byte
/// syntax, for every 33-bit `base` and 9-bit `extension`: the base is the big-endian value of
/// the first 33 bits.
pub proof fn lemma_pcr_round_trip(base: int, extension: int)
    requires
        0 <= base < 0x2_0000_0000,
        0 <= extension < 0x200,
    ensures
        spec_pcr_base(pcr_bytes(base, extension)) == base,
        spec_pcr_extension(pcr_bytes(base, extension)) == extension,
{
    let s = pcr_bytes(base, extension);
    let b0 = base / 0x200_0000;
    let r0 = base % 0x200_0000;
    let b1 = r0 / 0x2_0000;
    let r1 = r0 % 0x2_0000;
    let b2 = r1 / 0x200;
    let r2 = r1 % 0x200;
    let b3 = r2 / 2;
    let b4 = r2 % 2;
    assert(base == b0 * 0x200_0000 + b1 * 0x2_0000 + b2 * 0x200 + b3 * 2 + b4
        && 0 <= b0 < 256 && 0 <= b1 < 256 && 0 <= b2 < 256 && 0 <= b3 < 256 && 0 <= b4 < 2
        && (base / 0x2_0000) % 256 == b1 && (base / 0x200) % 256 == b2 && (base / 2) % 256 == b3
        && base % 2 == b4) by (nonlinear_arith)
        requires
            0 <= base < 0x2_0000_0000,
            b0 == base / 0x200_0000,
            r0 == base % 0x200_0000,
            b1 == r0 / 0x2_0000,
            r1 == r0 % 0x2_0000,
            b2 == r1 / 0x200,
            r2 == r1 % 0x200,
            b3 == r2 / 2,
            b4 == r2 % 2,
    ;
    assert(s[0] == b0 && s[1] == b1 && s[2] == b2 && s[3] == b3);
    assert(s[4] == b4 * 128 + 0x7e + extension / 256);
    assert(s[4] / 128 == b4);
    assert(s[4] % 2 == extension / 256);
    assert(s[5] == extension % 256);
}

} // verus!
