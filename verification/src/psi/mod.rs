//! Types for processing tables of *Program Specific Information* in a transport stream.
//!
//! # Concepts
//!
//! * There are multiple standard types of Program Specific Information, like the *Program
//!   Association Table* and *Program Map Table*.  Standards derived from mpegts may define their
//!   own table types.
//! * A PSI *Table* can split into *Sections*
//! * A Section can be split across a small number of individual transport stream *Packets*
//! * The payload of a section may use *section-syntax* or *compact-syntax*, as indicated by the
//!   `section_syntax_indicator` attribute of the [`SectionCommonHeader`]
//!   * *Section-syntax* sections have additional header data, represented by the
//!     [`TableSyntaxHeader`] type
//!   * *Compact-syntax* sections lack this extra header data
//!
//! [`Framer`] converts *Packets* into *Sections*.
pub mod chunking;
pub mod pat;
pub mod pmt;
pub mod tsdt;

use crate::error::{DemuxError, ErrorSink};
use crate::mpegts_crc;
use crate::packet;
use std::marker::PhantomData;
use vstd::prelude::*;

verus! {

/// Represents the value of the Transport Stream `current_next_indicator` field.
#[derive(Debug, PartialEq, Eq, Structural, Clone, Copy)]
pub enum CurrentNext {
    /// The section version number applies to the currently applicable section data
    Current,
    /// The section version number applies to the next applicable section data
    Next,
}

impl CurrentNext {
    fn from(v: u8) -> (r: CurrentNext)
        requires
            v < 2,
        ensures
            r == (if v == 1 {
                CurrentNext::Current
            } else {
                CurrentNext::Next
            }),
    {
        match v {
            0 => CurrentNext::Next,
            _ => CurrentNext::Current,
        }
    }
}

/// Represents the fields that appear within table sections that use the common 'section
/// syntax'.
///
/// This will only be used for a table section if the `section_syntax_indicator` field in the
/// `SectionCommonHeader` of the section is `true`.
#[derive(Debug)]
pub struct TableSyntaxHeader<'buf> {
    buf: &'buf [u8],
}

impl<'buf> View for TableSyntaxHeader<'buf> {
    type V = Seq<u8>;

    closed spec fn view(&self) -> Seq<u8> {
        self.buf@
    }
}

/// The 5-bit `version_number` field of a table syntax header.
pub open spec fn spec_table_version(s: Seq<u8>) -> u8 {
    (s[2] / 2) % 32
}

impl<'buf> TableSyntaxHeader<'buf> {
    #[verifier::type_invariant]
    spec fn inv(self) -> bool {
        self.buf@.len() >= 5
    }

    /// The size of the header; 5 bytes
    pub const SIZE: usize = 5;

    /// Constructs a new TableSyntaxHeader, wrapping the given slice, which must hold at least
    /// `TableSyntaxHeader::SIZE` bytes.
    pub fn new(buf: &'buf [u8]) -> (r: TableSyntaxHeader<'buf>)
        requires
            buf@.len() >= 5,
        ensures
            r@ == buf@,
    {
        TableSyntaxHeader { buf }
    }

    /// The initial 16-bit field within a 'section syntax' PSI table (which immediately follows
    /// the `section_length` field): the `transport_stream_id` of a Program Association Section,
    /// the `program_number` of a Program Map Section, or the `table_id_extension` of a Private
    /// Section.
    pub fn id(&self) -> (r: u16)
        ensures
            r == self@[0] * 256 + self@[1],
    {
        proof {
            use_type_invariant(self);
        }
        self.buf[0] as u16 * 256 + self.buf[1] as u16
    }

    /// A 5-bit value that can be used to quickly check if this table has changed since the last
    /// time it was periodically inserted within the transport stream being read.
    pub fn version(&self) -> (r: u8)
        ensures
            r == spec_table_version(self@),
    {
        proof {
            use_type_invariant(self);
        }
        (self.buf[2] / 2) % 32
    }

    /// Is this table applicable now, or will it become applicable at some future time.
    pub fn current_next_indicator(&self) -> (r: CurrentNext)
        ensures
            r == (if self@[2] % 2 == 1 {
                CurrentNext::Current
            } else {
                CurrentNext::Next
            }),
    {
        proof {
            use_type_invariant(self);
        }
        CurrentNext::from(self.buf[2] % 2)
    }

    /// The number of this section, within a potentially multi-section table.
    pub fn section_number(&self) -> (r: u8)
        ensures
            r == self@[3],
    {
        proof {
            use_type_invariant(self);
        }
        self.buf[3]
    }

    /// Indicates the value of `section_number()` that will appear within the last section
    /// within a table.
    pub fn last_section_number(&self) -> (r: u8)
        ensures
            r == self@[4],
    {
        proof {
            use_type_invariant(self);
        }
        self.buf[4]
    }
}

/// Header common to all PSI sections, whether they then use 'section syntax' or 'compact
/// syntax'.
#[derive(Debug, Clone, Copy)]
pub struct SectionCommonHeader {
    /// The type of table of which this is a section
    pub table_id: u8,
    /// `true` for 'section syntax`, `false` for 'compact syntax'.
    pub section_syntax_indicator: bool,
    /// indicates that the data in the table is for private use not defined in _ISO/IEC
    /// 13818-1_
    pub private_indicator: bool,
    /// the number of bytes in the section data immediately following this field (which may be
    /// more bytes than will fit into a single TS packet).
    pub section_length: usize,
}

/// The header held in the first 3 bytes of a section.
pub open spec fn spec_section_common_header(s: Seq<u8>) -> SectionCommonHeader {
    SectionCommonHeader {
        table_id: s[0],
        section_syntax_indicator: s[1] >= 128,
        private_indicator: (s[1] / 64) % 2 == 1,
        section_length: ((s[1] % 16) * 256 + s[2]) as usize,
    }
}

impl SectionCommonHeader {
    /// The fixed size of the CommonSectionHeader data in the Transport Stream; 3 bytes.
    pub const SIZE: usize = 3;

    /// Parses the data in the given slice, which must be exactly 3 bytes long, into a new
    /// `SectionCommonHeader`.
    pub fn new(buf: &[u8]) -> (r: SectionCommonHeader)
        requires
            buf@.len() == 3,
        ensures
            r == spec_section_common_header(buf@),
            r.section_length < 0x1000,
    {
        SectionCommonHeader {
            table_id: buf[0],
            section_syntax_indicator: buf[1] >= 128,
            private_indicator: (buf[1] / 64) % 2 == 1,
            section_length: (buf[1] % 16) as usize * 256 + buf[2] as usize,
        }
    }
}

/// Trait for types that parse fully reconstructed PSI table sections (which requires the
/// caller to have buffered section data if it spanned multiple TS packets).
pub trait WholeSectionSyntaxPayloadParser {
    /// Type of the context object that will be passed to all methods.
    type Context: ErrorSink;

    /// How handling the whole section `data`, whose common header is `header` and whose table
    /// syntax header holds the bytes `tsh`, may change this parser (into `after`) and its
    /// context (from `ctx` into `ctx_after`).  Any change is allowed, unless an implementation
    /// says more.
    open spec fn section_effect(
        &self,
        ctx: Self::Context,
        after: &Self,
        ctx_after: Self::Context,
        header: SectionCommonHeader,
        tsh: Seq<u8>,
        data: Seq<u8>,
    ) -> bool {
        true
    }

    /// Method that will receive a complete PSI table section, where the `data` parameter holds
    /// the whole section, `header.section_length` bytes following the 3-byte common header.
    fn section<'a>(
        &mut self,
        ctx: &mut Self::Context,
        header: &SectionCommonHeader,
        table_syntax_header: &TableSyntaxHeader<'a>,
        data: &'a [u8],
    )
        ensures
            old(self).section_effect(
                *old(ctx),
                final(self),
                *final(ctx),
                *header,
                table_syntax_header@,
                data@,
            ),
    ;

    /// How discarding in-progress state may change this parser (into `after`).  Any change is
    /// allowed, unless an implementation says more.
    open spec fn reset_effect(&self, after: &Self) -> bool {
        true
    }

    /// Called when any in-progress parser state should be discarded, typically because a
    /// transport stream discontinuity has been detected.  A parser that holds no such state
    /// gives it an empty body.
    fn reset(&mut self)
        ensures
            old(self).reset_effect(final(self)),
    ;
}

/// Trait for types that parse fully reconstructed PSI table sections using 'compact syntax'.
pub trait WholeCompactSyntaxPayloadParser {
    /// Type of the context object that will be passed to all methods.
    type Context: ErrorSink;

    /// How handling the whole section `data`, whose common header is `header`, may change this
    /// parser (into `after`) and its context (from `ctx` into `ctx_after`).  Any change is
    /// allowed, unless an implementation says more.
    open spec fn section_effect(
        &self,
        ctx: Self::Context,
        after: &Self,
        ctx_after: Self::Context,
        header: SectionCommonHeader,
        data: Seq<u8>,
    ) -> bool {
        true
    }

    /// Method that will receive a complete PSI table section, where the `data` parameter holds
    /// the whole section, `header.section_length` bytes following the 3-byte common header.
    fn section(&mut self, ctx: &mut Self::Context, header: &SectionCommonHeader, data: &[u8])
        ensures
            old(self).section_effect(*old(ctx), final(self), *final(ctx), *header, data@),
    ;

    /// How discarding in-progress state may change this parser (into `after`).  Any change is
    /// allowed, unless an implementation says more.
    open spec fn reset_effect(&self, after: &Self) -> bool {
        true
    }

    /// Called when any in-progress parser state should be discarded.  A parser that holds no
    /// such state gives it an empty body.
    fn reset(&mut self)
        ensures
            old(self).reset_effect(final(self)),
    ;
}

/// The size of the CRC_32 field at the end of a section-syntax section.
pub const CRC_SIZE: usize = 4;

/// `true` when the CRC check lets the section data through: it is long enough to hold the
/// common header, the table syntax header and the CRC, and its CRC is correct.
pub open spec fn spec_crc_check_passes(data: Seq<u8>) -> bool {
    data.len() >= 12 && mpegts_crc::spec_crc32(data) == 0
}

/// A section of at least 8 bytes (the headers) followed by the CRC of those bytes passes the
/// CRC check.
pub proof fn lemma_section_with_crc_passes(m: Seq<u8>)
    requires
        m.len() >= 8,
    ensures
        spec_crc_check_passes(m + mpegts_crc::crc_bytes(mpegts_crc::spec_crc32(m))),
{
    mpegts_crc::lemma_crc_of_message_and_crc_is_zero(m);
}

/// An implementation of `WholeSectionSyntaxPayloadParser` which will delegate to another
/// instance of `WholeSectionSyntaxPayloadParser` only if the CRC of the section data is
/// correct.
pub struct CrcCheckWholeSectionSyntaxPayloadParser<P> where P: WholeSectionSyntaxPayloadParser {
    pid: packet::Pid,
    inner: P,
    forwarded: Ghost<Seq<Seq<u8>>>,
    reported: Ghost<Seq<DemuxError>>,
}

/// The problem reported for the section `data` with the given `table_id`, on the PID `pid`,
/// when it fails the CRC check.
pub open spec fn crc_check_error(pid: packet::Pid, table_id: u8, data: Seq<u8>) -> DemuxError {
    if data.len() < 12 {
        DemuxError::SectionTooSmallForCrc { pid, table_id, actual: data.len() as usize }
    } else {
        DemuxError::CrcCheckFailed { pid, table_id }
    }
}

impl<P> CrcCheckWholeSectionSyntaxPayloadParser<P> where P: WholeSectionSyntaxPayloadParser {
    /// The sections (in order) passed through to the wrapped parser so far.
    pub closed spec fn forwarded(&self) -> Seq<Seq<u8>> {
        self.forwarded@
    }

    /// The problems (in order) reported to the context so far.
    pub closed spec fn reported(&self) -> Seq<DemuxError> {
        self.reported@
    }

    /// The PID named in the problems reported.
    pub closed spec fn pid(&self) -> packet::Pid {
        self.pid
    }

    /// The wrapped parser.
    pub closed spec fn inner(&self) -> P {
        self.inner
    }

    /// create a new CrcCheckWholeSectionSyntaxPayloadParser which wraps and delegates to the
    /// given `WholeSectionSyntaxPayloadParser` instance
    pub fn new(pid: packet::Pid, inner: P) -> (r: CrcCheckWholeSectionSyntaxPayloadParser<P>)
        ensures
            r.forwarded() == Seq::<Seq<u8>>::empty(),
            r.reported() == Seq::<DemuxError>::empty(),
            r.pid() == pid,
            r.inner() == inner,
    {
        CrcCheckWholeSectionSyntaxPayloadParser {
            pid,
            inner,
            forwarded: Ghost(Seq::empty()),
            reported: Ghost(Seq::empty()),
        }
    }

    /// Handle the given section: it is passed to the wrapped parser when
    /// `spec_crc_check_passes(data)`; otherwise a `SectionTooSmallForCrc` or `CrcCheckFailed`
    /// error is reported to the context.
    pub fn check_section<'a>(
        &mut self,
        ctx: &mut P::Context,
        header: &SectionCommonHeader,
        table_syntax_header: &TableSyntaxHeader<'a>,
        data: &'a [u8],
    )
        ensures
            final(self).forwarded() == if spec_crc_check_passes(data@) {
                old(self).forwarded().push(data@)
            } else {
                old(self).forwarded()
            },
            final(self).reported() == if spec_crc_check_passes(data@) {
                old(self).reported()
            } else {
                old(self).reported().push(crc_check_error(old(self).pid(), header.table_id, data@))
            },
            final(self).pid() == old(self).pid(),
            spec_crc_check_passes(data@) ==> old(self).inner().section_effect(
                *old(ctx),
                &final(self).inner(),
                *final(ctx),
                *header,
                table_syntax_header@,
                data@,
            ),
            !spec_crc_check_passes(data@) ==> final(self).inner() == old(self).inner()
                && old(ctx).error_effect(
                crc_check_error(old(self).pid(), header.table_id, data@),
                final(ctx),
            ),
    {
        if data.len() < SectionCommonHeader::SIZE + TableSyntaxHeader::SIZE + CRC_SIZE {
            let e = DemuxError::SectionTooSmallForCrc {
                pid: self.pid,
                table_id: header.table_id,
                actual: data.len(),
            };
            ctx.error(e);
            proof {
                self.reported@ = self.reported@.push(e);
            }
            return ;
        }
        if mpegts_crc::sum32(data) != 0 {
            let e = DemuxError::CrcCheckFailed { pid: self.pid, table_id: header.table_id };
            ctx.error(e);
            proof {
                self.reported@ = self.reported@.push(e);
            }
            return ;
        }
        self.inner.section(ctx, header, table_syntax_header, data);
        proof {
            self.forwarded@ = self.forwarded@.push(data@);
        }
    }
}

impl<P> WholeSectionSyntaxPayloadParser for CrcCheckWholeSectionSyntaxPayloadParser<
    P,
> where P: WholeSectionSyntaxPayloadParser {
    type Context = P::Context;

    /// A section passing the CRC check is recorded as forwarded and handled by the wrapped
    /// parser, with the same context; one failing it leaves the wrapped parser as it was, and
    /// its problem is recorded and reported to the context.
    open spec fn section_effect(
        &self,
        ctx: P::Context,
        after: &Self,
        ctx_after: P::Context,
        header: SectionCommonHeader,
        tsh: Seq<u8>,
        data: Seq<u8>,
    ) -> bool {
        let e = crc_check_error(self.pid(), header.table_id, data);
        &&& after.pid() == self.pid()
        &&& after.forwarded() == if spec_crc_check_passes(data) {
            self.forwarded().push(data)
        } else {
            self.forwarded()
        }
        &&& after.reported() == if spec_crc_check_passes(data) {
            self.reported()
        } else {
            self.reported().push(e)
        }
        &&& spec_crc_check_passes(data) ==> self.inner().section_effect(
            ctx,
            &after.inner(),
            ctx_after,
            header,
            tsh,
            data,
        )
        &&& !spec_crc_check_passes(data) ==> after.inner() == self.inner() && ctx.error_effect(
            e,
            &ctx_after,
        )
    }

    fn section<'a>(
        &mut self,
        ctx: &mut Self::Context,
        header: &SectionCommonHeader,
        table_syntax_header: &TableSyntaxHeader<'a>,
        data: &'a [u8],
    ) {
        self.check_section(ctx, header, table_syntax_header, data)
    }

    /// A reset is passed on to the wrapped parser; nothing else changes.
    open spec fn reset_effect(&self, after: &Self) -> bool {
        &&& after.pid() == self.pid()
        &&& after.forwarded() == self.forwarded()
        &&& after.reported() == self.reported()
        &&& self.inner().reset_effect(&after.inner())
    }

    fn reset(&mut self) {
        self.inner.reset();
    }
}

/// A wrapper around some other implementation of `WholeSectionSyntaxPayloadParser` that
/// passes-through section data, unless the `TableSyntaxHeader` indicates a version_number
/// which is the same as the last data that was passed though.
///
/// This avoids the underlying code needing to re-parse duplicate copies of the section, which
/// are usually inserted periodically in the Transport Stream.
pub struct DedupSectionSyntaxPayloadParser<P> where P: WholeSectionSyntaxPayloadParser {
    inner: P,
    last_version: Option<u8>,
    forwarded: Ghost<Seq<Seq<u8>>>,
}

impl<P> DedupSectionSyntaxPayloadParser<P> where P: WholeSectionSyntaxPayloadParser {
    /// The sections (in order) passed through to the wrapped parser so far.
    pub closed spec fn forwarded(&self) -> Seq<Seq<u8>> {
        self.forwarded@
    }

    /// The version of the last section passed through since creation or the last reset.
    pub closed spec fn last_version(&self) -> Option<u8> {
        self.last_version
    }

    /// The wrapped parser.
    pub closed spec fn inner(&self) -> P {
        self.inner
    }

    /// Wraps the given `WholeSectionSyntaxPayloadParser` in a new
    /// `DedupSectionSyntaxPayloadParser` instance.
    pub fn new(inner: P) -> (r: DedupSectionSyntaxPayloadParser<P>)
        ensures
            r.forwarded() == Seq::<Seq<u8>>::empty(),
            r.last_version() is None,
            r.inner() == inner,
    {
        DedupSectionSyntaxPayloadParser { inner, last_version: None, forwarded: Ghost(Seq::empty()) }
    }

    /// Handle the given section: it is passed to the wrapped parser unless its version equals
    /// that of the last section passed through.
    pub fn dedup_section<'a>(
        &mut self,
        ctx: &mut P::Context,
        header: &SectionCommonHeader,
        table_syntax_header: &TableSyntaxHeader<'a>,
        data: &'a [u8],
    )
        ensures
            final(self).last_version() == Some(spec_table_version(table_syntax_header@)),
            final(self).forwarded() == if old(self).last_version() == Some(
                spec_table_version(table_syntax_header@),
            ) {
                old(self).forwarded()
            } else {
                old(self).forwarded().push(data@)
            },
            old(self).last_version() == Some(spec_table_version(table_syntax_header@))
                ==> final(self).inner() == old(self).inner() && *final(ctx) == *old(ctx),
            old(self).last_version() != Some(spec_table_version(table_syntax_header@))
                ==> old(self).inner().section_effect(
                *old(ctx),
                &final(self).inner(),
                *final(ctx),
                *header,
                table_syntax_header@,
                data@,
            ),
    {
        let version = table_syntax_header.version();
        if self.last_version == Some(version) {
            return ;
        }
        self.last_version = Some(version);
        self.inner.section(ctx, header, table_syntax_header, data);
        proof {
            self.forwarded@ = self.forwarded@.push(data@);
        }
    }

    /// Forget the version of the last section passed through (so that the next section is
    /// passed through whatever its version), and reset the wrapped parser.
    pub fn dedup_reset(&mut self)
        ensures
            final(self).last_version() is None,
            final(self).forwarded() == old(self).forwarded(),
            old(self).inner().reset_effect(&final(self).inner()),
    {
        self.last_version = None;
        self.inner.reset();
    }
}

/// Deduplication starts afresh after a reset: the section handled next is passed through
/// whatever its version, and a section repeating it straight after is dropped.
pub proof fn lemma_dedup_after_reset<P: WholeSectionSyntaxPayloadParser>(
    p0: DedupSectionSyntaxPayloadParser<P>,
    p1: DedupSectionSyntaxPayloadParser<P>,
    p2: DedupSectionSyntaxPayloadParser<P>,
    p3: DedupSectionSyntaxPayloadParser<P>,
    version: u8,
    data: Seq<u8>,
)
    requires
        p1.last_version() is None,
        p1.forwarded() == p0.forwarded(),
        p2.last_version() == Some(version),
        p2.forwarded() == (if p1.last_version() == Some(version) {
            p1.forwarded()
        } else {
            p1.forwarded().push(data)
        }),
        p3.forwarded() == (if p2.last_version() == Some(version) {
            p2.forwarded()
        } else {
            p2.forwarded().push(data)
        }),
    ensures
        p2.forwarded() == p0.forwarded().push(data),
        p3.forwarded() == p2.forwarded(),
{
}

impl<P> WholeSectionSyntaxPayloadParser for DedupSectionSyntaxPayloadParser<
    P,
> where P: WholeSectionSyntaxPayloadParser {
    type Context = P::Context;

    /// The version in `tsh` becomes the last version seen.  A section repeating the last
    /// version is dropped, leaving the wrapped parser and the context as they were; any other
    /// is recorded as forwarded and handled by the wrapped parser, with the same context.
    open spec fn section_effect(
        &self,
        ctx: P::Context,
        after: &Self,
        ctx_after: P::Context,
        header: SectionCommonHeader,
        tsh: Seq<u8>,
        data: Seq<u8>,
    ) -> bool {
        let repeated = self.last_version() == Some(spec_table_version(tsh));
        &&& after.last_version() == Some(spec_table_version(tsh))
        &&& after.forwarded() == if repeated {
            self.forwarded()
        } else {
            self.forwarded().push(data)
        }
        &&& repeated ==> after.inner() == self.inner() && ctx_after == ctx
        &&& !repeated ==> self.inner().section_effect(
            ctx,
            &after.inner(),
            ctx_after,
            header,
            tsh,
            data,
        )
    }

    fn section<'a>(
        &mut self,
        ctx: &mut Self::Context,
        header: &SectionCommonHeader,
        table_syntax_header: &TableSyntaxHeader<'a>,
        data: &'a [u8],
    ) {
        self.dedup_section(ctx, header, table_syntax_header, data)
    }

    /// The last version seen is forgotten and the reset is passed on to the wrapped parser.
    open spec fn reset_effect(&self, after: &Self) -> bool {
        &&& after.last_version() is None
        &&& after.forwarded() == self.forwarded()
        &&& self.inner().reset_effect(&after.inner())
    }

    fn reset(&mut self) {
        self.dedup_reset()
    }
}

/// Generic upper bound on `section_length`; see ISO/IEC 13818-1 §2.4.4.11.
pub const SECTION_LIMIT: usize = 4093;

/// The byte value used for the stuffing bytes which follow the last section within a TS packet
/// payload, and which is also used as an out-of-band `table_id` marker meaning "no more
/// sections in this payload".
const STUFFING_BYTE: u8 = 0xff;

/// The state of a [`Framer`] between pieces of section data.
#[derive(Debug, Clone, Copy, PartialEq, Eq, Structural)]
pub enum FramerState {
    /// Not currently inside a section.  A new section may start as soon as a byte other than
    /// `0xff` is found at the `table_id` position.
    Idle,
    /// Collecting bytes into the buffer, expecting `target` total bytes before delivery.
    /// Initially `target` is `SectionCommonHeader::SIZE`; once the header has been parsed it is
    /// grown to the full section length.
    Collecting {
        /// the total number of bytes of the section being collected
        target: usize,
    },
    /// A section was rejected; the remaining `remaining` bytes of its body must still be
    /// discarded before a new section can be recognised.
    Ignoring {
        /// the number of bytes still to be discarded
        remaining: usize,
    },
}

/// Trait abstracting the differences between section-syntax and compact-syntax framing.
/// Implementations are zero-sized marker types that provide validation and dispatch logic.
pub trait SectionSyntax {
    /// the type of the parser to which whole sections are delivered
    type Parser;
    /// the type of the context passed to the parser
    type Context: ErrorSink;

    /// Which section headers are accepted.
    spec fn spec_valid(header: SectionCommonHeader) -> bool;

    /// The problem reported when a section with the given header, on the given PID, is
    /// rejected.
    spec fn spec_rejection(pid: packet::Pid, header: SectionCommonHeader) -> DemuxError;

    /// Validate a parsed `SectionCommonHeader`: `None` accepts it, and the problem found
    /// rejects the section (the framer will skip its body).
    fn check_header(pid: packet::Pid, header: &SectionCommonHeader) -> (r: Option<DemuxError>)
        ensures
            r is None <==> Self::spec_valid(*header),
            r matches Some(e) ==> e == Self::spec_rejection(pid, *header),
    ;

    /// How delivering the whole section `data`, whose common header is `header`, changes the
    /// parser (from `parser` into `parser_after`) and the context (from `ctx` into
    /// `ctx_after`): as the parser's own handling of that section does.
    spec fn spec_delivered(
        parser: Self::Parser,
        ctx: Self::Context,
        parser_after: Self::Parser,
        ctx_after: Self::Context,
        header: SectionCommonHeader,
        data: Seq<u8>,
    ) -> bool;

    /// Deliver a complete section to the wrapped parser.
    fn deliver_section(
        parser: &mut Self::Parser,
        ctx: &mut Self::Context,
        header: &SectionCommonHeader,
        data: &[u8],
    )
        requires
            Self::spec_valid(*header),
            data@.len() == 3 + header.section_length,
        ensures
            Self::spec_delivered(*old(parser), *old(ctx), *final(parser), *final(ctx), *header, data@),
    ;

    /// How a reset changes the parser (from `parser` into `parser_after`): as the parser's own
    /// `reset()` does.
    spec fn spec_reset(parser: Self::Parser, parser_after: Self::Parser) -> bool;

    /// Forward a reset to the wrapped parser.
    fn reset_parser(parser: &mut Self::Parser)
        ensures
            Self::spec_reset(*old(parser), *final(parser)),
    ;
}

/// Framing mode for 'section syntax' sections, delivered to a
/// [`WholeSectionSyntaxPayloadParser`].
pub struct SectionSyntaxMode<P: WholeSectionSyntaxPayloadParser>(PhantomData<P>);

impl<P: WholeSectionSyntaxPayloadParser> SectionSyntax for SectionSyntaxMode<P> {
    type Parser = P;

    type Context = P::Context;

    open spec fn spec_valid(header: SectionCommonHeader) -> bool {
        header.section_syntax_indicator && header.section_length <= SECTION_LIMIT
            && header.section_length >= TableSyntaxHeader::SIZE
    }

    open spec fn spec_rejection(pid: packet::Pid, header: SectionCommonHeader) -> DemuxError {
        if !header.section_syntax_indicator {
            DemuxError::UnexpectedSectionSyntaxIndicator { pid, table_id: header.table_id }
        } else if header.section_length > SECTION_LIMIT {
            DemuxError::PsiSectionTooLarge {
                pid,
                table_id: header.table_id,
                length: header.section_length,
                limit: SECTION_LIMIT,
            }
        } else {
            DemuxError::SectionDataTooShort {
                pid,
                table_id: header.table_id,
                actual: (3 + header.section_length) as usize,
                minimum: 8,
            }
        }
    }

    open spec fn spec_delivered(
        parser: P,
        ctx: P::Context,
        parser_after: P,
        ctx_after: P::Context,
        header: SectionCommonHeader,
        data: Seq<u8>,
    ) -> bool {
        parser.section_effect(
            ctx,
            &parser_after,
            ctx_after,
            header,
            data.subrange(3, data.len() as int),
            data,
        )
    }

    open spec fn spec_reset(parser: P, parser_after: P) -> bool {
        parser.reset_effect(&parser_after)
    }

    fn check_header(pid: packet::Pid, header: &SectionCommonHeader) -> (r: Option<DemuxError>) {
        if !header.section_syntax_indicator {
            return Some(
                DemuxError::UnexpectedSectionSyntaxIndicator { pid, table_id: header.table_id },
            );
        }
        if header.section_length > SECTION_LIMIT {
            return Some(
                DemuxError::PsiSectionTooLarge {
                    pid,
                    table_id: header.table_id,
                    length: header.section_length,
                    limit: SECTION_LIMIT,
                },
            );
        }
        if header.section_length < TableSyntaxHeader::SIZE {
            return Some(
                DemuxError::SectionDataTooShort {
                    pid,
                    table_id: header.table_id,
                    actual: SectionCommonHeader::SIZE + header.section_length,
                    minimum: SectionCommonHeader::SIZE + TableSyntaxHeader::SIZE,
                },
            );
        }
        None
    }

    fn deliver_section(
        parser: &mut P,
        ctx: &mut Self::Context,
        header: &SectionCommonHeader,
        data: &[u8],
    ) {
        let table_syntax_header = TableSyntaxHeader::new(
            &data[SectionCommonHeader::SIZE..data.len()],
        );
        parser.section(ctx, header, &table_syntax_header, data);
    }

    fn reset_parser(parser: &mut P) {
        parser.reset();
    }
}

/// Framing mode for 'compact syntax' sections, delivered to a
/// [`WholeCompactSyntaxPayloadParser`].
pub struct CompactSyntaxMode<P: WholeCompactSyntaxPayloadParser>(PhantomData<P>);

impl<P: WholeCompactSyntaxPayloadParser> SectionSyntax for CompactSyntaxMode<P> {
    type Parser = P;

    type Context = P::Context;

    open spec fn spec_valid(header: SectionCommonHeader) -> bool {
        !header.section_syntax_indicator && header.section_length <= SECTION_LIMIT
    }

    open spec fn spec_rejection(pid: packet::Pid, header: SectionCommonHeader) -> DemuxError {
        if header.section_syntax_indicator {
            DemuxError::UnexpectedSectionSyntaxIndicator { pid, table_id: header.table_id }
        } else {
            DemuxError::PsiSectionTooLarge {
                pid,
                table_id: header.table_id,
                length: header.section_length,
                limit: SECTION_LIMIT,
            }
        }
    }

    open spec fn spec_delivered(
        parser: P,
        ctx: P::Context,
        parser_after: P,
        ctx_after: P::Context,
        header: SectionCommonHeader,
        data: Seq<u8>,
    ) -> bool {
        parser.section_effect(ctx, &parser_after, ctx_after, header, data)
    }

    open spec fn spec_reset(parser: P, parser_after: P) -> bool {
        parser.reset_effect(&parser_after)
    }

    fn check_header(pid: packet::Pid, header: &SectionCommonHeader) -> (r: Option<DemuxError>) {
        if header.section_syntax_indicator {
            return Some(
                DemuxError::UnexpectedSectionSyntaxIndicator { pid, table_id: header.table_id },
            );
        }
        if header.section_length > SECTION_LIMIT {
            return Some(
                DemuxError::PsiSectionTooLarge {
                    pid,
                    table_id: header.table_id,
                    length: header.section_length,
                    limit: SECTION_LIMIT,
                },
            );
        }
        None
    }

    fn deliver_section(
        parser: &mut P,
        ctx: &mut Self::Context,
        header: &SectionCommonHeader,
        data: &[u8],
    ) {
        parser.section(ctx, header, data);
    }

    fn reset_parser(parser: &mut P) {
        parser.reset();
    }
}

/// A call that a [`Framer`] makes on its wrapped parser or on the context.
pub enum FramerCall {
    /// the whole section with these bytes is delivered to the parser
    Section(Seq<u8>),
    /// this problem is reported to the context
    Error(DemuxError),
    /// the parser is reset
    Reset,
}

/// The sections delivered by the calls `cs`, in order.
pub open spec fn sections_of(cs: Seq<FramerCall>) -> Seq<Seq<u8>>
    decreases cs.len(),
{
    if cs.len() == 0 {
        Seq::empty()
    } else {
        match cs.last() {
            FramerCall::Section(d) => sections_of(cs.drop_last()).push(d),
            _ => sections_of(cs.drop_last()),
        }
    }
}

/// The problems reported by the calls `cs`, in order.
pub open spec fn errors_of(cs: Seq<FramerCall>) -> Seq<DemuxError>
    decreases cs.len(),
{
    if cs.len() == 0 {
        Seq::empty()
    } else {
        match cs.last() {
            FramerCall::Error(e) => errors_of(cs.drop_last()).push(e),
            _ => errors_of(cs.drop_last()),
        }
    }
}

/// `true` when the call `c` changes the parser from `p0` into `p1` and the context from `x0`
/// into `x1`, as the parser's `section()` or `reset()`, or the context's `error()`, does.
pub open spec fn framer_call_applied<S: SectionSyntax>(p0: S::Parser, x0: S::Context, c: FramerCall, p1: S::Parser, x1: S::Context) -> bool {
    match c {
        FramerCall::Section(d) => S::spec_delivered(
            p0,
            x0,
            p1,
            x1,
            spec_section_common_header(d.subrange(0, 3)),
            d,
        ),
        FramerCall::Error(e) => p1 == p0 && x0.error_effect(e, &x1),
        FramerCall::Reset => x1 == x0 && S::spec_reset(p0, p1),
    }
}

/// `true` when the calls `cs`, made one after another, change the parser from `p0` into `p1`
/// and the context from `x0` into `x1`.
pub open spec fn framer_calls_applied<S: SectionSyntax>(p0: S::Parser, x0: S::Context, cs: Seq<FramerCall>, p1: S::Parser, x1: S::Context) -> bool
    decreases cs.len(),
{
    if cs.len() == 0 {
        p1 == p0 && x1 == x0
    } else {
        exists|p: S::Parser, x: S::Context|
            #![trigger framer_call_applied::<S>(p, x, cs.last(), p1, x1)]
            framer_calls_applied::<S>(p0, x0, cs.drop_last(), p, x) && framer_call_applied::<S>(
                p,
                x,
                cs.last(),
                p1,
                x1,
            )
    }
}

proof fn lemma_calls_applied_concat<S: SectionSyntax>(p0: S::Parser, x0: S::Context, a: Seq<FramerCall>, p1: S::Parser, x1: S::Context, b: Seq<FramerCall>, p2: S::Parser, x2: S::Context)
    requires
        framer_calls_applied::<S>(p0, x0, a, p1, x1),
        framer_calls_applied::<S>(p1, x1, b, p2, x2),
    ensures
        framer_calls_applied::<S>(p0, x0, a + b, p2, x2),
    decreases b.len(),
{
    if b.len() == 0 {
        assert(a + b =~= a);
    } else {
        let (p, x) = choose|p: S::Parser, x: S::Context|
            #![trigger framer_call_applied::<S>(p, x, b.last(), p2, x2)]
            framer_calls_applied::<S>(p1, x1, b.drop_last(), p, x) && framer_call_applied::<S>(
                p,
                x,
                b.last(),
                p2,
                x2,
            );
        lemma_calls_applied_concat::<S>(p0, x0, a, p1, x1, b.drop_last(), p, x);
        assert((a + b).drop_last() =~= a + b.drop_last());
        assert((a + b).last() == b.last());
    }
}

proof fn lemma_calls_of_one(c: FramerCall)
    ensures
        sections_of(seq![c]) == (match c {
            FramerCall::Section(d) => seq![d],
            _ => Seq::<Seq<u8>>::empty(),
        }),
        errors_of(seq![c]) == (match c {
            FramerCall::Error(e) => seq![e],
            _ => Seq::<DemuxError>::empty(),
        }),
{
    let one = seq![c];
    assert(one.drop_last() =~= Seq::<FramerCall>::empty());
    assert(one.last() == c);
    assert(sections_of(one.drop_last()) == Seq::<Seq<u8>>::empty());
    assert(errors_of(one.drop_last()) == Seq::<DemuxError>::empty());
    match c {
        FramerCall::Section(d) => {
            assert(Seq::<Seq<u8>>::empty().push(d) =~= seq![d]);
        },
        FramerCall::Error(e) => {
            assert(Seq::<DemuxError>::empty().push(e) =~= seq![e]);
        },
        _ => {},
    }
}

proof fn lemma_calls_of_concat(a: Seq<FramerCall>, b: Seq<FramerCall>)
    ensures
        sections_of(a + b) == sections_of(a) + sections_of(b),
        errors_of(a + b) == errors_of(a) + errors_of(b),
    decreases b.len(),
{
    if b.len() == 0 {
        assert(a + b =~= a);
        assert(sections_of(a) + sections_of(b) =~= sections_of(a));
        assert(errors_of(a) + errors_of(b) =~= errors_of(a));
    } else {
        lemma_calls_of_concat(a, b.drop_last());
        assert((a + b).drop_last() =~= a + b.drop_last());
        assert((a + b).last() == b.last());
        let sa = sections_of(a);
        let sb = sections_of(b.drop_last());
        let ea = errors_of(a);
        let eb = errors_of(b.drop_last());
        match b.last() {
            FramerCall::Section(d) => {
                assert((sa + sb).push(d) =~= sa + sb.push(d));
            },
            FramerCall::Error(e) => {
                assert((ea + eb).push(e) =~= ea + eb.push(e));
            },
            _ => {},
        }
    }
}

/// The outcome of one step of the framer's state machine over a contiguous piece of section
/// data.
pub struct FeedStep {
    /// the framer state after the step
    pub state: FramerState,
    /// the buffered bytes after the step
    pub buf: Seq<u8>,
    /// the input bytes not yet consumed
    pub rest: Seq<u8>,
    /// the sections delivered by the step
    pub delivered: Seq<Seq<u8>>,
    /// `true` when the step found stuffing in place of a section, discarding the rest of the
    /// input
    pub stop: bool,
}

/// The outcome of feeding a contiguous piece of section data to the framer.
pub struct FeedResult {
    /// the framer state afterwards
    pub state: FramerState,
    /// the buffered bytes afterwards
    pub buf: Seq<u8>,
    /// the sections delivered, in order
    pub delivered: Seq<Seq<u8>>,
    /// `true` when stuffing ended the input early, so that some bytes were discarded
    pub stopped: bool,
}

/// One step of the framer over the non-empty input `bytes`, for the framing mode `S`.
///
/// * `Idle`: a `0xff` byte at the `table_id` position ends the input.  Otherwise, once 3
///   header bytes are available, a rejected section is skipped (its remaining body bytes are
///   ignored later); a complete accepted section is delivered straight from the input; and an
///   incomplete section (or header) is buffered.
/// * `Collecting`: input is appended to the buffer until it holds `target` bytes; a completed
///   header is then validated (and the target grown to the whole section), and a completed
///   section is delivered.
/// * `Ignoring`: up to `remaining` bytes are discarded.
pub open spec fn framer_step<S: SectionSyntax>(st: FramerState, buf: Seq<u8>, bytes: Seq<u8>) -> FeedStep {
    match st {
        FramerState::Idle => {
            if bytes[0] == 0xff {
                FeedStep {
                    state: FramerState::Idle,
                    buf,
                    rest: Seq::empty(),
                    delivered: Seq::empty(),
                    stop: true,
                }
            } else if bytes.len() >= 3 {
                let h = spec_section_common_header(bytes.subrange(0, 3));
                let total = 3 + h.section_length;
                if !S::spec_valid(h) {
                    let skip = if total < bytes.len() {
                        total
                    } else {
                        bytes.len() as int
                    };
                    FeedStep {
                        state: if total > skip {
                            FramerState::Ignoring { remaining: (total - skip) as usize }
                        } else {
                            FramerState::Idle
                        },
                        buf,
                        rest: bytes.subrange(skip, bytes.len() as int),
                        delivered: Seq::empty(),
                        stop: false,
                    }
                } else if bytes.len() >= total {
                    FeedStep {
                        state: FramerState::Idle,
                        buf,
                        rest: bytes.subrange(total, bytes.len() as int),
                        delivered: seq![bytes.subrange(0, total)],
                        stop: false,
                    }
                } else {
                    FeedStep {
                        state: FramerState::Collecting { target: total as usize },
                        buf: bytes,
                        rest: Seq::empty(),
                        delivered: Seq::empty(),
                        stop: false,
                    }
                }
            } else {
                FeedStep {
                    state: FramerState::Collecting { target: 3 },
                    buf: bytes,
                    rest: Seq::empty(),
                    delivered: Seq::empty(),
                    stop: false,
                }
            }
        },
        FramerState::Collecting { target } => {
            if buf.len() >= target {
                FeedStep { state: st, buf, rest: Seq::empty(), delivered: Seq::empty(), stop: true }
            } else {
                let needed = target - buf.len();
                let take = if needed < bytes.len() {
                    needed
                } else {
                    bytes.len() as int
                };
                let nbuf = buf + bytes.subrange(0, take);
                let rest = bytes.subrange(take, bytes.len() as int);
                if nbuf.len() == target && target == 3 {
                    let h = spec_section_common_header(nbuf);
                    if !S::spec_valid(h) {
                        FeedStep {
                            state: FramerState::Ignoring { remaining: h.section_length },
                            buf: Seq::empty(),
                            rest,
                            delivered: Seq::empty(),
                            stop: false,
                        }
                    } else if h.section_length == 0 {
                        FeedStep {
                            state: FramerState::Idle,
                            buf: Seq::empty(),
                            rest,
                            delivered: seq![nbuf],
                            stop: false,
                        }
                    } else {
                        FeedStep {
                            state: FramerState::Collecting {
                                target: (3 + h.section_length) as usize,
                            },
                            buf: nbuf,
                            rest,
                            delivered: Seq::empty(),
                            stop: false,
                        }
                    }
                } else if nbuf.len() == target {
                    FeedStep {
                        state: FramerState::Idle,
                        buf: Seq::empty(),
                        rest,
                        delivered: seq![nbuf],
                        stop: false,
                    }
                } else {
                    FeedStep { state: st, buf: nbuf, rest, delivered: Seq::empty(), stop: false }
                }
            }
        },
        FramerState::Ignoring { remaining } => {
            let drop = if remaining < bytes.len() {
                remaining as int
            } else {
                bytes.len() as int
            };
            FeedStep {
                state: if drop == remaining {
                    FramerState::Idle
                } else {
                    FramerState::Ignoring { remaining: (remaining - drop) as usize }
                },
                buf,
                rest: bytes.subrange(drop, bytes.len() as int),
                delivered: Seq::empty(),
                stop: false,
            }
        },
    }
}

/// Ranks the state that discards nothing before becoming `Idle` above all others, so that the
/// framer's progress through its input is measured.
pub open spec fn ignoring_rank(st: FramerState) -> int {
    if st == (FramerState::Ignoring { remaining: 0 }) {
        1
    } else {
        0
    }
}

/// Feeding the contiguous section data `bytes` to a framer in state `st` holding the buffered
/// bytes `buf`: the steps of [`framer_step`], one after another, until the input is used up or
/// stuffing ends it.
pub open spec fn framer_feed<S: SectionSyntax>(st: FramerState, buf: Seq<u8>, bytes: Seq<u8>) -> FeedResult
    decreases bytes.len(), ignoring_rank(st),
{
    if bytes.len() == 0 {
        FeedResult { state: st, buf, delivered: Seq::empty(), stopped: false }
    } else {
        let s = framer_step::<S>(st, buf, bytes);
        if s.stop {
            FeedResult { state: s.state, buf: s.buf, delivered: s.delivered, stopped: true }
        } else {
            let r = framer_feed::<S>(s.state, s.buf, s.rest);
            FeedResult {
                state: r.state,
                buf: r.buf,
                delivered: s.delivered + r.delivered,
                stopped: r.stopped,
            }
        }
    }
}

/// The problems that one step of the framer (as [`framer_step`] describes it) reports for
/// section data on the PID `pid`: a rejected header, once it is complete.
pub open spec fn framer_step_errors<S: SectionSyntax>(pid: packet::Pid, st: FramerState, buf: Seq<u8>, bytes: Seq<u8>) -> Seq<DemuxError> {
    match st {
        FramerState::Idle => {
            if bytes[0] != 0xff && bytes.len() >= 3 && !S::spec_valid(
                spec_section_common_header(bytes.subrange(0, 3)),
            ) {
                seq![S::spec_rejection(pid, spec_section_common_header(bytes.subrange(0, 3)))]
            } else {
                Seq::empty()
            }
        },
        FramerState::Collecting { target } => {
            if buf.len() >= target || target != 3 {
                Seq::empty()
            } else {
                let needed = target - buf.len();
                let take = if needed < bytes.len() {
                    needed
                } else {
                    bytes.len() as int
                };
                let nbuf = buf + bytes.subrange(0, take);
                if nbuf.len() == 3 && !S::spec_valid(spec_section_common_header(nbuf)) {
                    seq![S::spec_rejection(pid, spec_section_common_header(nbuf))]
                } else {
                    Seq::empty()
                }
            }
        },
        FramerState::Ignoring { .. } => Seq::empty(),
    }
}

/// The problems that the framer reports while it is fed the section data `bytes`, as
/// [`framer_feed`] describes it.
pub open spec fn framer_feed_errors<S: SectionSyntax>(pid: packet::Pid, st: FramerState, buf: Seq<u8>, bytes: Seq<u8>) -> Seq<DemuxError>
    decreases bytes.len(), ignoring_rank(st),
{
    if bytes.len() == 0 {
        Seq::empty()
    } else {
        let s = framer_step::<S>(st, buf, bytes);
        let e = framer_step_errors::<S>(pid, st, buf, bytes);
        if s.stop {
            e
        } else {
            e + framer_feed_errors::<S>(pid, s.state, s.buf, s.rest)
        }
    }
}

/// The calls that one step of the framer (as [`framer_step`] describes it) makes for section
/// data on the PID `pid`: the problem it reports, or the section it delivers.
pub open spec fn framer_step_calls<S: SectionSyntax>(pid: packet::Pid, st: FramerState, buf: Seq<u8>, bytes: Seq<u8>) -> Seq<FramerCall> {
    framer_step_errors::<S>(pid, st, buf, bytes).map_values(|e: DemuxError| FramerCall::Error(e))
        + framer_step::<S>(st, buf, bytes).delivered.map_values(|d: Seq<u8>| FramerCall::Section(d))
}

/// The calls that the framer makes while it is fed the section data `bytes`, in order, as
/// [`framer_feed`] describes it.
pub open spec fn framer_feed_calls<S: SectionSyntax>(pid: packet::Pid, st: FramerState, buf: Seq<u8>, bytes: Seq<u8>) -> Seq<FramerCall>
    decreases bytes.len(), ignoring_rank(st),
{
    if bytes.len() == 0 {
        Seq::empty()
    } else {
        let s = framer_step::<S>(st, buf, bytes);
        let c = framer_step_calls::<S>(pid, st, buf, bytes);
        if s.stop {
            c
        } else {
            c + framer_feed_calls::<S>(pid, s.state, s.buf, s.rest)
        }
    }
}

/// The consistency of a framer's state with its buffer: nothing is buffered outside a section;
/// a buffered section starts with its non-stuffing `table_id`, is shorter than its target, and
/// once its header is buffered, has an accepted header whose length gives the target.
pub open spec fn framer_wf<S: SectionSyntax>(st: FramerState, buf: Seq<u8>) -> bool {
    match st {
        FramerState::Idle => buf.len() == 0,
        FramerState::Ignoring { .. } => buf.len() == 0,
        FramerState::Collecting { target } => {
            &&& 0 < buf.len() < target
            &&& buf[0] != 0xff
            &&& buf.len() < 3 ==> target == 3
            &&& buf.len() >= 3 ==> target == 3 + spec_section_common_header(buf).section_length
                && S::spec_valid(spec_section_common_header(buf))
        },
    }
}

/// The observable outcome of [`Framer::consume()`]: whether the framer is synchronised, its
/// state and buffer afterwards, and the sections delivered.
pub struct ConsumeResult {
    /// `true` once a packet starting a section has been seen
    pub synced: bool,
    /// the framer state afterwards
    pub state: FramerState,
    /// the buffered bytes afterwards
    pub buf: Seq<u8>,
    /// the sections delivered, in order
    pub delivered: Seq<Seq<u8>>,
}

/// What [`Framer::consume()`] does with the packet `pk`, given the framer's synchronisation
/// flag, state and buffer:
///
/// * A packet without a payload changes nothing.
/// * A packet starting a section (`payload_unit_start_indicator`) has a `pointer_field` giving
///   the number of bytes that finish the section in progress.  A pointer beyond the payload
///   resets the framer.  Otherwise, once synchronised, those bytes are fed to a section in
///   progress (they are dropped when no section is in progress); a section still unfinished
///   after them is discarded; and the bytes after the pointer are fed from the `Idle` state.
/// * A continuation packet is fed to the section in progress, and dropped when no section is in
///   progress or the framer has never been synchronised.
pub open spec fn framer_consume<S: SectionSyntax>(synced: bool, st: FramerState, buf: Seq<u8>, pk: Seq<u8>) -> ConsumeResult {
    match packet::spec_packet_payload(pk) {
        None => ConsumeResult { synced, state: st, buf, delivered: Seq::empty() },
        Some(p) => if (pk[1] / 64) % 2 == 1 {
            framer_start::<S>(synced, st, buf, p)
        } else if synced && st != FramerState::Idle {
            let f = framer_feed::<S>(st, buf, p);
            ConsumeResult { synced, state: f.state, buf: f.buf, delivered: f.delivered }
        } else {
            ConsumeResult { synced, state: st, buf, delivered: Seq::empty() }
        },
    }
}

/// What [`Framer::consume()`] does with the non-empty payload `p` of a packet that starts a
/// section: `p[0]` is the `pointer_field`, and the bytes after it are section data.
pub open spec fn framer_start<S: SectionSyntax>(synced: bool, st: FramerState, buf: Seq<u8>, p: Seq<u8>) -> ConsumeResult {
    let pointer = p[0] as int;
    let sd = p.subrange(1, p.len() as int);
    if pointer > sd.len() {
        ConsumeResult { synced, state: FramerState::Idle, buf: Seq::empty(), delivered: Seq::empty() }
    } else {
        let pre = if synced && pointer > 0 && st != FramerState::Idle {
            framer_feed::<S>(st, buf, sd.subrange(0, pointer))
        } else {
            FeedResult { state: st, buf, delivered: Seq::empty(), stopped: false }
        };
        let st2 = if pre.state != FramerState::Idle {
            FramerState::Idle
        } else {
            pre.state
        };
        let buf2 = if pre.state != FramerState::Idle {
            Seq::empty()
        } else {
            pre.buf
        };
        let post = framer_feed::<S>(st2, buf2, sd.subrange(pointer, sd.len() as int));
        ConsumeResult {
            synced: true,
            state: post.state,
            buf: post.buf,
            delivered: pre.delivered + post.delivered,
        }
    }
}

/// The problems that [`Framer::consume()`] reports for the non-empty payload `p` of a packet
/// that starts a section, as [`framer_start`] describes it: a `pointer_field` beyond the
/// payload; or those of the bytes before the pointer, then a section left unfinished by them,
/// then those of the bytes after it.
pub open spec fn framer_start_errors<S: SectionSyntax>(pid: packet::Pid, synced: bool, st: FramerState, buf: Seq<u8>, p: Seq<u8>) -> Seq<DemuxError> {
    let pointer = p[0] as int;
    let sd = p.subrange(1, p.len() as int);
    if pointer > sd.len() {
        seq![DemuxError::PsiPointerOutOfBounds { pid }]
    } else {
        let pre_cond = synced && pointer > 0 && st != FramerState::Idle;
        let pre = if pre_cond {
            framer_feed::<S>(st, buf, sd.subrange(0, pointer))
        } else {
            FeedResult { state: st, buf, delivered: Seq::empty(), stopped: false }
        };
        let pre_errors = if pre_cond {
            framer_feed_errors::<S>(pid, st, buf, sd.subrange(0, pointer))
        } else {
            Seq::empty()
        };
        let unfinished = if pre.state != FramerState::Idle {
            seq![DemuxError::ExtraDataAfterSectionComplete { pid }]
        } else {
            Seq::empty()
        };
        let st2 = if pre.state != FramerState::Idle {
            FramerState::Idle
        } else {
            pre.state
        };
        let buf2 = if pre.state != FramerState::Idle {
            Seq::empty()
        } else {
            pre.buf
        };
        pre_errors + unfinished + framer_feed_errors::<S>(
            pid,
            st2,
            buf2,
            sd.subrange(pointer, sd.len() as int),
        )
    }
}

/// The calls that [`Framer::consume()`] makes for the non-empty payload `p` of a packet that
/// starts a section, in order, as [`framer_start`] describes it: for a `pointer_field` beyond
/// the payload, the problem is reported and the parser reset; otherwise those for the bytes
/// before the pointer, then, for a section left unfinished by them, the problem is reported and
/// the parser reset, then those for the bytes after the pointer.
pub open spec fn framer_start_calls<S: SectionSyntax>(pid: packet::Pid, synced: bool, st: FramerState, buf: Seq<u8>, p: Seq<u8>) -> Seq<FramerCall> {
    let pointer = p[0] as int;
    let sd = p.subrange(1, p.len() as int);
    if pointer > sd.len() {
        seq![FramerCall::Error(DemuxError::PsiPointerOutOfBounds { pid }), FramerCall::Reset]
    } else {
        let pre_cond = synced && pointer > 0 && st != FramerState::Idle;
        let pre = if pre_cond {
            framer_feed::<S>(st, buf, sd.subrange(0, pointer))
        } else {
            FeedResult { state: st, buf, delivered: Seq::empty(), stopped: false }
        };
        let pre_calls = if pre_cond {
            framer_feed_calls::<S>(pid, st, buf, sd.subrange(0, pointer))
        } else {
            Seq::empty()
        };
        let unfinished = if pre.state != FramerState::Idle {
            seq![
                FramerCall::Error(DemuxError::ExtraDataAfterSectionComplete { pid }),
                FramerCall::Reset,
            ]
        } else {
            Seq::empty()
        };
        let st2 = if pre.state != FramerState::Idle {
            FramerState::Idle
        } else {
            pre.state
        };
        let buf2 = if pre.state != FramerState::Idle {
            Seq::empty()
        } else {
            pre.buf
        };
        pre_calls + unfinished + framer_feed_calls::<S>(
            pid,
            st2,
            buf2,
            sd.subrange(pointer, sd.len() as int),
        )
    }
}

/// The calls that [`Framer::consume()`] makes for the packet `pk`, in order, as
/// [`framer_consume`] describes it: for a packet without a payload, the problem is reported;
/// those for a packet starting a section; those for the continuation of a section in progress;
/// and, for a continuation packet arriving once synchronised when no section is in progress,
/// the problem is reported.
pub open spec fn framer_consume_calls<S: SectionSyntax>(pid: packet::Pid, synced: bool, st: FramerState, buf: Seq<u8>, pk: Seq<u8>) -> Seq<FramerCall> {
    match packet::spec_packet_payload(pk) {
        None => seq![FramerCall::Error(DemuxError::NoPayloadInPsiPacket { pid })],
        Some(p) => if (pk[1] / 64) % 2 == 1 {
            framer_start_calls::<S>(pid, synced, st, buf, p)
        } else if synced && st != FramerState::Idle {
            framer_feed_calls::<S>(pid, st, buf, p)
        } else if synced {
            seq![FramerCall::Error(DemuxError::ExtraDataAfterSectionComplete { pid })]
        } else {
            Seq::empty()
        },
    }
}

/// The problems that [`Framer::consume()`] reports for the packet `pk`, as [`framer_consume`]
/// describes it: a packet without a payload; those of a packet starting a section; those of
/// the continuation of a section in progress; and a continuation packet arriving, once
/// synchronised, when no section is in progress.
pub open spec fn framer_consume_errors<S: SectionSyntax>(pid: packet::Pid, synced: bool, st: FramerState, buf: Seq<u8>, pk: Seq<u8>) -> Seq<DemuxError> {
    match packet::spec_packet_payload(pk) {
        None => seq![DemuxError::NoPayloadInPsiPacket { pid }],
        Some(p) => if (pk[1] / 64) % 2 == 1 {
            framer_start_errors::<S>(pid, synced, st, buf, p)
        } else if synced && st != FramerState::Idle {
            framer_feed_errors::<S>(pid, st, buf, p)
        } else if synced {
            seq![DemuxError::ExtraDataAfterSectionComplete { pid }]
        } else {
            Seq::empty()
        },
    }
}

/// `true` when the framer `f1` is what [`Framer::consume()`] makes of the framer `f0` and the
/// packet `pk`: the outcome that [`framer_consume`] gives, from `f0`'s state and buffer (or
/// from the `Idle` state with nothing buffered, after a reset of the parser, should those be
/// inconsistent), with the problems and calls that [`framer_consume_errors`] and
/// [`framer_consume_calls`] give.
pub open spec fn framer_consumed<S: SectionSyntax>(f0: Framer<S>, f1: Framer<S>, pk: Seq<u8>) -> bool {
    let st = if f0.wf() {
        f0.state()
    } else {
        FramerState::Idle
    };
    let buf = if f0.wf() {
        f0.buffered()
    } else {
        Seq::empty()
    };
    let c = framer_consume::<S>(f0.synced(), st, buf, pk);
    &&& f1.synced() == c.synced
    &&& f1.state() == c.state
    &&& f1.buffered() == c.buf
    &&& f1.delivered() == f0.delivered() + c.delivered
    &&& f1.reported() == f0.reported() + framer_consume_errors::<S>(f0.pid(), f0.synced(), st, buf, pk)
    &&& f1.calls() == f0.calls() + (if f0.wf() {
        Seq::<FramerCall>::empty()
    } else {
        seq![FramerCall::Reset]
    }) + framer_consume_calls::<S>(f0.pid(), f0.synced(), st, buf, pk)
    &&& f1.pid() == f0.pid()
}

/// Generic PSI section framer that reconstructs whole sections from a stream of transport
/// stream packets.
///
/// Sections that fit entirely within a single TS packet payload are delivered without copying
/// any data.  Sections that span multiple packets - or whose headers straddle a packet boundary
/// - are buffered internally.  Multiple sections packed back-to-back in the same packet payload
/// are supported, as is the ISO/IEC 13818-1 convention that a `table_id` of `0xff` in the
/// between-sections position marks the remainder of the payload as stuffing.
pub struct Framer<S: SectionSyntax> {
    pid: packet::Pid,
    buf: Vec<u8>,
    state: FramerState,
    parser: S::Parser,
    synced: bool,
    delivered: Ghost<Seq<Seq<u8>>>,
    reported: Ghost<Seq<DemuxError>>,
    calls: Ghost<Seq<FramerCall>>,
    _phantom: PhantomData<S>,
}

/// `true` when the framer `f0` with the context `x0` becomes `f1` with the context `x1` through
/// the calls it records: they extend its record, change its parser and the context as the
/// parser's and the context's own methods do, and hold the sections it delivers and the
/// problems it reports, in order.
pub open spec fn framer_called<S: SectionSyntax>(f0: Framer<S>, x0: S::Context, f1: Framer<S>, x1: S::Context) -> bool {
    let new = f1.calls().subrange(f0.calls().len() as int, f1.calls().len() as int);
    &&& f0.calls().len() <= f1.calls().len()
    &&& f1.calls().subrange(0, f0.calls().len() as int) == f0.calls()
    &&& framer_calls_applied::<S>(f0.parser(), x0, new, f1.parser(), x1)
    &&& f1.delivered() == f0.delivered() + sections_of(new)
    &&& f1.reported() == f0.reported() + errors_of(new)
}

/// Calls made in turn compose.
proof fn lemma_framer_called_trans<S: SectionSyntax>(f0: Framer<S>, x0: S::Context, f1: Framer<S>, x1: S::Context, f2: Framer<S>, x2: S::Context)
    requires
        framer_called(f0, x0, f1, x1),
        framer_called(f1, x1, f2, x2),
    ensures
        framer_called(f0, x0, f2, x2),
{
    let n0 = f0.calls().len() as int;
    let n1 = f1.calls().len() as int;
    let n2 = f2.calls().len() as int;
    let a = f1.calls().subrange(n0, n1);
    let b = f2.calls().subrange(n1, n2);
    assert(f2.calls().subrange(n0, n2) =~= a + b);
    assert(f2.calls().subrange(0, n0) =~= f1.calls().subrange(0, n0));
    lemma_calls_applied_concat::<S>(f0.parser(), x0, a, f1.parser(), x1, b, f2.parser(), x2);
    lemma_calls_of_concat(a, b);
    assert(f0.delivered() + sections_of(a) + sections_of(b) =~= f0.delivered() + (sections_of(a)
        + sections_of(b)));
    assert(f0.reported() + errors_of(a) + errors_of(b) =~= f0.reported() + (errors_of(a)
        + errors_of(b)));
}

/// A framer that made no call, and whose parser and records are unchanged, leaves the
/// context unchanged.
proof fn lemma_framer_called_none<S: SectionSyntax>(f0: Framer<S>, x: S::Context, f1: Framer<S>)
    requires
        f1.calls() == f0.calls(),
        f1.parser() == f0.parser(),
        f1.delivered() == f0.delivered(),
        f1.reported() == f0.reported(),
    ensures
        framer_called(f0, x, f1, x),
{
    let n = f0.calls().len() as int;
    assert(f1.calls().subrange(n, n) =~= Seq::<FramerCall>::empty());
    assert(f1.calls().subrange(0, n) =~= f0.calls());
    assert(f0.delivered() + Seq::<Seq<u8>>::empty() =~= f0.delivered());
    assert(f0.reported() + Seq::<DemuxError>::empty() =~= f0.reported());
}

/// A reset, recorded, is a call the framer made.
proof fn lemma_framer_called_reset<S: SectionSyntax>(f0: Framer<S>, x: S::Context, f1: Framer<S>)
    requires
        f1.calls() == f0.calls().push(FramerCall::Reset),
        S::spec_reset(f0.parser(), f1.parser()),
        f1.delivered() == f0.delivered(),
        f1.reported() == f0.reported(),
    ensures
        framer_called(f0, x, f1, x),
{
    let c = FramerCall::Reset;
    lemma_calls_of_one(c);
    assert(f0.delivered() + Seq::<Seq<u8>>::empty() =~= f0.delivered());
    assert(f0.reported() + Seq::<DemuxError>::empty() =~= f0.reported());
    lemma_framer_called_one::<S>(f0, x, c, f1, x);
}

/// A whole section delivered, recorded, is a call the framer made.
proof fn lemma_framer_called_section<S: SectionSyntax>(f0: Framer<S>, x0: S::Context, d: Seq<u8>, f1: Framer<S>, x1: S::Context)
    requires
        f1.calls() == f0.calls().push(FramerCall::Section(d)),
        S::spec_delivered(f0.parser(), x0, f1.parser(), x1, spec_section_common_header(d.subrange(0, 3)), d),
        f1.delivered() == f0.delivered().push(d),
        f1.reported() == f0.reported(),
    ensures
        framer_called(f0, x0, f1, x1),
{
    let c = FramerCall::Section(d);
    lemma_calls_of_one(c);
    assert(f0.delivered().push(d) =~= f0.delivered() + seq![d]);
    assert(f0.reported() + Seq::<DemuxError>::empty() =~= f0.reported());
    lemma_framer_called_one::<S>(f0, x0, c, f1, x1);
}

/// A framer that made the one call `c`, recording it, has made that call.
proof fn lemma_framer_called_one<S: SectionSyntax>(f0: Framer<S>, x0: S::Context, c: FramerCall, f1: Framer<S>, x1: S::Context)
    requires
        f1.calls() == f0.calls().push(c),
        framer_call_applied::<S>(f0.parser(), x0, c, f1.parser(), x1),
        f1.delivered() == f0.delivered() + sections_of(seq![c]),
        f1.reported() == f0.reported() + errors_of(seq![c]),
    ensures
        framer_called(f0, x0, f1, x1),
{
    let n = f0.calls().len() as int;
    assert(f1.calls().subrange(n, n + 1) =~= seq![c]);
    assert(f1.calls().subrange(0, n) =~= f0.calls());
    assert(seq![c].drop_last() =~= Seq::<FramerCall>::empty());
    assert(framer_calls_applied::<S>(f0.parser(), x0, seq![c].drop_last(), f0.parser(), x0));
}

/// Converts a stream of transport stream packets carrying 'section syntax' PSI table sections
/// into a stream of whole sections, delivered to the wrapped
/// [`WholeSectionSyntaxPayloadParser`] implementation.
pub type SectionSyntaxFramer<P> = Framer<SectionSyntaxMode<P>>;

/// Converts a stream of transport stream packets carrying 'compact syntax' PSI table sections
/// into a stream of whole sections, delivered to the wrapped
/// [`WholeCompactSyntaxPayloadParser`] implementation.
pub type CompactSyntaxFramer<P> = Framer<CompactSyntaxMode<P>>;

impl<S: SectionSyntax> Framer<S> {
    /// The framer's state.
    pub closed spec fn state(&self) -> FramerState {
        self.state
    }

    /// The bytes of an incomplete section held by the framer.
    pub closed spec fn buffered(&self) -> Seq<u8> {
        self.buf@
    }

    /// `true` once a packet starting a section has been seen.
    pub closed spec fn synced(&self) -> bool {
        self.synced
    }

    /// The sections delivered to the wrapped parser so far, in order.
    pub closed spec fn delivered(&self) -> Seq<Seq<u8>> {
        self.delivered@
    }

    /// The problems reported to the context so far, in order.
    pub closed spec fn reported(&self) -> Seq<DemuxError> {
        self.reported@
    }

    /// The PID named in the problems reported.
    pub closed spec fn pid(&self) -> packet::Pid {
        self.pid
    }

    /// The wrapped parser.
    pub closed spec fn parser(&self) -> S::Parser {
        self.parser
    }

    /// The calls made on the wrapped parser and on the context so far, in order.
    pub closed spec fn calls(&self) -> Seq<FramerCall> {
        self.calls@
    }

    /// The framer's internal consistency.
    pub closed spec fn wf(&self) -> bool {
        framer_wf::<S>(self.state, self.buf@)
    }

    /// Wraps the given parser in a new framer for the given PID.
    pub fn new(pid: packet::Pid, parser: S::Parser) -> (r: Framer<S>)
        ensures
            r.wf(),
            r.state() == FramerState::Idle,
            r.buffered().len() == 0,
            !r.synced(),
            r.delivered() == Seq::<Seq<u8>>::empty(),
            r.reported() == Seq::<DemuxError>::empty(),
            r.pid() == pid,
            r.parser() == parser,
            r.calls() == Seq::<FramerCall>::empty(),
    {
        Framer {
            pid,
            buf: Vec::with_capacity(SectionCommonHeader::SIZE + SECTION_LIMIT),
            state: FramerState::Idle,
            parser,
            synced: false,
            delivered: Ghost(Seq::empty()),
            reported: Ghost(Seq::empty()),
            calls: Ghost(Seq::empty()),
            _phantom: PhantomData,
        }
    }

    /// The number of bytes of an incomplete section currently held by the framer.
    pub fn buffered_len(&self) -> (r: usize)
        ensures
            r == self.buffered().len(),
    {
        self.buf.len()
    }

    /// Process the given transport stream packet, invoking the underlying parser's `section()`
    /// method for each complete PSI section found within the packet (possibly together with
    /// data buffered from earlier packets).  Problems are reported to the context.
    ///
    /// A framer is always consistent when used through its methods; should its state be
    /// inconsistent with its buffer, the in-progress section is discarded first.
    pub fn consume(&mut self, ctx: &mut S::Context, pk: &packet::Packet<'_>)
        ensures
            final(self).wf(),
            framer_consumed(*old(self), *final(self), pk@),
            framer_called(*old(self), *old(ctx), *final(self), *final(ctx)),
    {
        if !self.is_consistent() {
            self.reset();
            proof {
                assert(self.buf@ =~= Seq::<u8>::empty());
                lemma_framer_called_reset::<S>(*old(self), *ctx, *self);
            }
        } else {
            proof {
                lemma_framer_called_none::<S>(*old(self), *ctx, *self);
            }
        }
        let ghost f1 = *self;
        let ghost pre = if old(self).wf() {
            Seq::<FramerCall>::empty()
        } else {
            seq![FramerCall::Reset]
        };
        proof {
            assert(self.calls@ =~= old(self).calls@ + pre);
        }
        let ghost e0 = self.reported@;
        pk.lemma_well_formed();
        match pk.payload() {
            Some(pk_buf) => {
                if pk.payload_unit_start_indicator() {
                    self.start(ctx, pk_buf);
                    proof {
                        assert(self.calls@ =~= old(self).calls@ + pre + framer_start_calls::<S>(
                            f1.pid,
                            f1.synced,
                            f1.state,
                            f1.buf@,
                            pk_buf@,
                        ));
                        lemma_framer_called_trans::<S>(*old(self), *old(ctx), f1, *old(ctx), *self, *ctx);
                    }
                } else if self.synced {
                    if self.state == FramerState::Idle {
                        self.report(ctx, DemuxError::ExtraDataAfterSectionComplete { pid: self.pid });
                        proof {
                            lemma_framer_called_trans::<S>(*old(self), *old(ctx), f1, *old(ctx), *self, *ctx);
                            assert(self.calls@ =~= old(self).calls@ + pre + seq![
                                FramerCall::Error(DemuxError::ExtraDataAfterSectionComplete { pid: self.pid }),
                            ]);
                            assert(self.delivered@ + Seq::<Seq<u8>>::empty() =~= self.delivered@);
                            assert(self.reported@ =~= e0 + seq![
                                DemuxError::ExtraDataAfterSectionComplete { pid: self.pid },
                            ]);
                        }
                        return ;
                    }
                    self.feed(ctx, pk_buf);
                    proof {
                        assert(self.calls@ =~= old(self).calls@ + pre + framer_feed_calls::<S>(
                            f1.pid,
                            f1.state,
                            f1.buf@,
                            pk_buf@,
                        ));
                        lemma_framer_called_trans::<S>(*old(self), *old(ctx), f1, *old(ctx), *self, *ctx);
                    }
                } else {
                    proof {
                        assert(self.calls@ =~= old(self).calls@ + pre + Seq::<FramerCall>::empty());
                        assert(self.delivered@ + Seq::<Seq<u8>>::empty() =~= self.delivered@);
                        assert(self.reported@ + Seq::<DemuxError>::empty() =~= self.reported@);
                    }
                }
            },
            None => {
                self.report(ctx, DemuxError::NoPayloadInPsiPacket { pid: self.pid });
                proof {
                    lemma_framer_called_trans::<S>(*old(self), *old(ctx), f1, *old(ctx), *self, *ctx);
                    assert(self.calls@ =~= old(self).calls@ + pre + seq![
                        FramerCall::Error(DemuxError::NoPayloadInPsiPacket { pid: self.pid }),
                    ]);
                    assert(self.delivered@ + Seq::<Seq<u8>>::empty() =~= self.delivered@);
                    assert(self.reported@ =~= e0 + seq![DemuxError::NoPayloadInPsiPacket { pid: self.pid }]);
                }
            },
        }
    }

    /// Reports the given problem to the context.
    fn report(&mut self, ctx: &mut S::Context, e: DemuxError)
        ensures
            final(self).reported() == old(self).reported().push(e),
            final(self).state == old(self).state,
            final(self).buf@ == old(self).buf@,
            final(self).synced == old(self).synced,
            final(self).delivered@ == old(self).delivered@,
            final(self).pid == old(self).pid,
            final(self).calls@ == old(self).calls@.push(FramerCall::Error(e)),
            final(self).parser == old(self).parser,
            framer_called(*old(self), *old(ctx), *final(self), *final(ctx)),
    {
        ctx.error(e);
        proof {
            self.reported@ = self.reported@.push(e);
            self.calls@ = self.calls@.push(FramerCall::Error(e));
            let c = FramerCall::Error(e);
            lemma_calls_of_one(c);
            assert(old(self).reported@.push(e) =~= old(self).reported@ + seq![e]);
            assert(old(self).delivered@ + Seq::<Seq<u8>>::empty() =~= old(self).delivered@);
            lemma_framer_called_one::<S>(*old(self), *old(ctx), c, *self, *ctx);
        }
    }

    /// Handles the payload of a packet that starts a section: finishes the section in progress
    /// with the bytes before the `pointer_field` position, then frames the sections after it.
    #[verifier::spinoff_prover]
    #[verifier::rlimit(50)]
    fn start(&mut self, ctx: &mut S::Context, pk_buf: &[u8])
        requires
            old(self).wf(),
            pk_buf@.len() > 0,
        ensures
            final(self).wf(),
            ({
                let c = framer_start::<S>(old(self).synced(), old(self).state(), old(self).buffered(), pk_buf@);
                &&& final(self).synced() == c.synced
                &&& final(self).state() == c.state
                &&& final(self).buffered() == c.buf
                &&& final(self).delivered() == old(self).delivered() + c.delivered
            }),
            final(self).reported() == old(self).reported() + framer_start_errors::<S>(
                old(self).pid,
                old(self).synced(),
                old(self).state(),
                old(self).buffered(),
                pk_buf@,
            ),
            final(self).pid == old(self).pid,
            framer_called(*old(self), *old(ctx), *final(self), *final(ctx)),
            final(self).calls() == old(self).calls() + framer_start_calls::<S>(
                old(self).pid,
                old(self).synced(),
                old(self).state(),
                old(self).buffered(),
                pk_buf@,
            ),
    {
        let pointer = pk_buf[0] as usize;
        let section_data = &pk_buf[1..pk_buf.len()];
        if pointer > section_data.len() {
            self.report(ctx, DemuxError::PsiPointerOutOfBounds { pid: self.pid });
            let ghost fa = *self;
            self.reset();
            proof {
                assert(self.delivered@ + Seq::<Seq<u8>>::empty() =~= self.delivered@);
                lemma_framer_called_reset::<S>(fa, *ctx, *self);
                lemma_framer_called_trans::<S>(*old(self), *old(ctx), fa, *ctx, *self, *ctx);
                assert(self.calls@ =~= old(self).calls@ + seq![
                    FramerCall::Error(DemuxError::PsiPointerOutOfBounds { pid: old(self).pid }),
                    FramerCall::Reset,
                ]);
            }
            return ;
        }
        let ghost d0 = self.delivered@;
        let ghost e0 = self.reported@;
        let ghost k0 = self.calls@;
        let ghost sd = section_data@;
        let ghost pre_cond = self.synced && pointer > 0 && self.state != FramerState::Idle;
        let ghost pre = if pre_cond {
            framer_feed::<S>(self.state, self.buf@, sd.subrange(0, pointer as int))
        } else {
            FeedResult { state: self.state, buf: self.buf@, delivered: Seq::empty(), stopped: false }
        };
        let ghost pre_errors = if pre_cond {
            framer_feed_errors::<S>(self.pid, self.state, self.buf@, sd.subrange(0, pointer as int))
        } else {
            Seq::empty()
        };
        proof {
            assert(sd =~= pk_buf@.subrange(1, pk_buf@.len() as int));
        }
        if self.synced && pointer > 0 && self.state != FramerState::Idle {
            // pre-pointer bytes belong to a section already in progress.
            self.feed(ctx, &section_data[0..pointer]);
        } else {
            proof {
                lemma_framer_called_none::<S>(*old(self), *old(ctx), *self);
                assert(d0 + Seq::<Seq<u8>>::empty() =~= d0);
                assert(e0 + Seq::<DemuxError>::empty() =~= e0);
            }
        }
        let ghost pre_calls = if pre_cond {
            framer_feed_calls::<S>(self.pid, old(self).state, old(self).buf@, sd.subrange(0, pointer as int))
        } else {
            Seq::<FramerCall>::empty()
        };
        proof {
            if !pre_cond {
                assert(self.calls@ =~= k0 + pre_calls);
            }
        }
        let ghost k1 = self.calls@;
        let ghost d1 = self.delivered@;
        let ghost e1 = self.reported@;
        assert(self.state == pre.state && self.buf@ == pre.buf && d1 == d0 + pre.delivered);
        assert(e1 == e0 + pre_errors);
        // After the pre-pointer phase the framer must be Idle, otherwise the upstream
        // section's reported length disagrees with pointer_field.
        let ghost f1 = *self;
        let ghost x1 = *ctx;
        if self.state != FramerState::Idle {
            self.report(ctx, DemuxError::ExtraDataAfterSectionComplete { pid: self.pid });
            let ghost fa = *self;
            self.reset();
            proof {
                lemma_framer_called_reset::<S>(fa, *ctx, *self);
                lemma_framer_called_trans::<S>(f1, x1, fa, *ctx, *self, *ctx);
            }
        } else {
            proof {
                lemma_framer_called_none::<S>(f1, x1, *self);
            }
        }
        proof {
            lemma_framer_called_trans::<S>(*old(self), *old(ctx), f1, x1, *self, *ctx);
            let unf = if pre.state != FramerState::Idle {
                seq![
                    FramerCall::Error(DemuxError::ExtraDataAfterSectionComplete { pid: self.pid }),
                    FramerCall::Reset,
                ]
            } else {
                Seq::<FramerCall>::empty()
            };
            assert(self.calls@ =~= k1 + unf);
        }
        let ghost k2 = self.calls@;
        let ghost unfinished = if pre.state != FramerState::Idle {
            seq![DemuxError::ExtraDataAfterSectionComplete { pid: self.pid }]
        } else {
            Seq::<DemuxError>::empty()
        };
        proof {
            if pre.state != FramerState::Idle {
                assert(self.buf@ =~= Seq::<u8>::empty());
            }
            assert(self.reported@ =~= e1 + unfinished);
        }
        let ghost f2 = *self;
        self.synced = true;
        proof {
            lemma_framer_called_none::<S>(f2, *ctx, *self);
            lemma_framer_called_trans::<S>(*old(self), *old(ctx), f2, *ctx, *self, *ctx);
        }
        let ghost f3 = *self;
        let ghost x3 = *ctx;
        let ghost d2 = self.delivered@;
        let ghost e2 = self.reported@;
        let ghost post = framer_feed::<S>(self.state, self.buf@, sd.subrange(pointer as int, sd.len() as int));
        let ghost post_errors = framer_feed_errors::<S>(
            self.pid,
            self.state,
            self.buf@,
            sd.subrange(pointer as int, sd.len() as int),
        );
        self.feed(ctx, &section_data[pointer..section_data.len()]);
        proof {
            lemma_framer_called_trans::<S>(*old(self), *old(ctx), f3, x3, *self, *ctx);
            let post_calls = framer_feed_calls::<S>(
                self.pid,
                f3.state,
                f3.buf@,
                sd.subrange(pointer as int, sd.len() as int),
            );
            assert(self.calls@ == k2 + post_calls);
            assert(self.calls@ =~= k0 + (pre_calls + (k2.subrange(k1.len() as int, k2.len() as int)) + post_calls));
            assert(d2 == d1);
            assert(self.delivered@ == d2 + post.delivered);
            assert(self.delivered@ =~= d0 + (pre.delivered + post.delivered));
            assert(self.reported@ == e2 + post_errors);
            assert(self.reported@ =~= e0 + (pre_errors + unfinished + post_errors));
        }
    }

    /// Whether the framer's state is consistent with its buffer.
    fn is_consistent(&self) -> (r: bool)
        ensures
            r == self.wf(),
    {
        match self.state {
            FramerState::Idle => self.buf.len() == 0,
            FramerState::Ignoring { .. } => self.buf.len() == 0,
            FramerState::Collecting { target } => {
                let n = self.buf.len();
                if n == 0 || n >= target || self.buf[0] == STUFFING_BYTE {
                    return false;
                }
                if n < SectionCommonHeader::SIZE {
                    target == SectionCommonHeader::SIZE
                } else {
                    let header = SectionCommonHeader::new(
                        &self.buf.as_slice()[0..SectionCommonHeader::SIZE],
                    );
                    proof {
                        let b = self.buf@;
                        assert(b.subrange(0, 3)[0] == b[0] && b.subrange(0, 3)[1] == b[1]
                            && b.subrange(0, 3)[2] == b[2]);
                    }
                    target == SectionCommonHeader::SIZE + header.section_length && S::check_header(
                        self.pid,
                        &header,
                    ).is_none()
                }
            },
        }
    }

    /// Discard any in-progress section data, e.g. after a continuity counter discontinuity.
    /// The framer stays synchronised, and the wrapped parser is reset too.
    pub fn reset(&mut self)
        ensures
            final(self).wf(),
            final(self).state() == FramerState::Idle,
            final(self).buffered().len() == 0,
            final(self).synced() == old(self).synced(),
            final(self).delivered() == old(self).delivered(),
            final(self).reported() == old(self).reported(),
            final(self).pid() == old(self).pid(),
            final(self).calls() == old(self).calls().push(FramerCall::Reset),
            S::spec_reset(old(self).parser(), final(self).parser()),
    {
        self.buf.clear();
        self.state = FramerState::Idle;
        S::reset_parser(&mut self.parser);
        proof {
            self.calls@ = self.calls@.push(FramerCall::Reset);
        }
    }

    /// Core state machine: consume a contiguous slice of PSI bytes.
    #[verifier::spinoff_prover]
    #[verifier::rlimit(50)]
    fn feed(&mut self, ctx: &mut S::Context, bytes_in: &[u8])
        requires
            old(self).wf(),
        ensures
            final(self).wf(),
            ({
                let f = framer_feed::<S>(old(self).state(), old(self).buffered(), bytes_in@);
                &&& final(self).state() == f.state
                &&& final(self).buffered() == f.buf
                &&& final(self).delivered() == old(self).delivered() + f.delivered
            }),
            final(self).reported() == old(self).reported() + framer_feed_errors::<S>(
                old(self).pid,
                old(self).state(),
                old(self).buffered(),
                bytes_in@,
            ),
            final(self).synced() == old(self).synced(),
            final(self).pid == old(self).pid,
            framer_called(*old(self), *old(ctx), *final(self), *final(ctx)),
            final(self).calls@ == old(self).calls@ + framer_feed_calls::<S>(
                old(self).pid,
                old(self).state(),
                old(self).buffered(),
                bytes_in@,
            ),
    {
        let mut bytes = bytes_in;
        let ghost st0 = self.state;
        let ghost buf0 = self.buf@;
        let ghost d0 = self.delivered@;
        let ghost e0 = self.reported@;
        let ghost k0 = self.calls@;
        proof {
            lemma_framer_called_none::<S>(*old(self), *old(ctx), *self);
        }
        while bytes.len() > 0
            invariant
                framer_called(*old(self), *old(ctx), *self, *ctx),
                framer_wf::<S>(self.state, self.buf@),
                st0 == old(self).state,
                buf0 == old(self).buf@,
                d0 == old(self).delivered@,
                e0 == old(self).reported@,
                self.synced == old(self).synced,
                self.pid == old(self).pid,
                ({
                    let f0 = framer_feed::<S>(st0, buf0, bytes_in@);
                    let f = framer_feed::<S>(self.state, self.buf@, bytes@);
                    &&& f0.state == f.state
                    &&& f0.buf == f.buf
                    &&& d0 + f0.delivered == self.delivered@ + f.delivered
                }),
                k0 == old(self).calls@,
                k0 + framer_feed_calls::<S>(self.pid, st0, buf0, bytes_in@) == self.calls@
                    + framer_feed_calls::<S>(self.pid, self.state, self.buf@, bytes@),
                e0 + framer_feed_errors::<S>(self.pid, st0, buf0, bytes_in@) == self.reported@
                    + framer_feed_errors::<S>(self.pid, self.state, self.buf@, bytes@),
            decreases bytes@.len(), ignoring_rank(self.state),
        {
            let ghost cur_st = self.state;
            let ghost cur_buf = self.buf@;
            let ghost cur_bytes = bytes@;
            let ghost cur_d = self.delivered@;
            let ghost cur_e = self.reported@;
            let ghost cur_k = self.calls@;
            let ghost fb = *self;
            let ghost xb = *ctx;
            let (rest, stop) = match self.state {
                FramerState::Idle => self.step_idle(ctx, bytes),
                FramerState::Collecting { .. } => self.step_collecting(ctx, bytes),
                FramerState::Ignoring { .. } => {
                    let r = self.step_ignoring(bytes);
                    proof {
                        lemma_framer_called_none::<S>(fb, xb, *self);
                    }
                    r
                },
            };
            proof {
                lemma_framer_called_trans::<S>(*old(self), *old(ctx), fb, xb, *self, *ctx);
                let s = framer_step::<S>(cur_st, cur_buf, cur_bytes);
                let se = framer_step_errors::<S>(self.pid, cur_st, cur_buf, cur_bytes);
                let f = framer_feed::<S>(cur_st, cur_buf, cur_bytes);
                let fe = framer_feed_errors::<S>(self.pid, cur_st, cur_buf, cur_bytes);
                let sc = framer_step_calls::<S>(self.pid, cur_st, cur_buf, cur_bytes);
                let fc = framer_feed_calls::<S>(self.pid, cur_st, cur_buf, cur_bytes);
                if !stop {
                    let f2 = framer_feed::<S>(s.state, s.buf, s.rest);
                    let fe2 = framer_feed_errors::<S>(self.pid, s.state, s.buf, s.rest);
                    assert(f.delivered == s.delivered + f2.delivered);
                    assert(cur_d + (s.delivered + f2.delivered) =~= (cur_d + s.delivered)
                        + f2.delivered);
                    assert(fe == se + fe2);
                    assert(cur_e + (se + fe2) =~= (cur_e + se) + fe2);
                    let fc2 = framer_feed_calls::<S>(self.pid, s.state, s.buf, s.rest);
                    assert(fc == sc + fc2);
                    assert(cur_k + (sc + fc2) =~= (cur_k + sc) + fc2);
                } else {
                    assert(f.delivered == s.delivered);
                    assert(f.state == s.state);
                    assert(f.buf == s.buf);
                    assert(fe == se);
                    assert(fc == sc);
                }
            }
            if stop {
                proof {
                    let f0 = framer_feed::<S>(st0, buf0, bytes_in@);
                    assert(self.state == f0.state);
                    assert(self.buf@ == f0.buf);
                    assert(self.delivered@ == d0 + f0.delivered);
                }
                return ;
            }
            bytes = rest;
        }
        proof {
            assert(self.delivered@ + Seq::<Seq<u8>>::empty() =~= self.delivered@);
            assert(self.reported@ + Seq::<DemuxError>::empty() =~= self.reported@);
            assert(self.calls@ + Seq::<FramerCall>::empty() =~= self.calls@);
        }
    }

    /// One step of the state machine from the `Idle` state.
    fn step_idle<'a>(&mut self, ctx: &mut S::Context, bytes: &'a [u8]) -> (r: (&'a [u8], bool))
        requires
            old(self).state == FramerState::Idle,
            framer_wf::<S>(old(self).state, old(self).buf@),
            bytes@.len() > 0,
        ensures
            ({
                let s = framer_step::<S>(old(self).state, old(self).buf@, bytes@);
                &&& final(self).state == s.state
                &&& final(self).buf@ == s.buf
                &&& r.0@ == s.rest
                &&& r.1 == s.stop
                &&& final(self).delivered@ == old(self).delivered@ + s.delivered
            }),
            final(self).reported@ == old(self).reported@ + framer_step_errors::<S>(
                old(self).pid,
                old(self).state,
                old(self).buf@,
                bytes@,
            ),
            framer_wf::<S>(final(self).state, final(self).buf@),
            r.0@.len() < bytes@.len() || r.1,
            final(self).synced == old(self).synced,
            final(self).pid == old(self).pid,
            framer_called(*old(self), *old(ctx), *final(self), *final(ctx)),
            final(self).calls@ == old(self).calls@ + framer_step_calls::<S>(
                old(self).pid,
                old(self).state,
                old(self).buf@,
                bytes@,
            ),
    {
        if bytes[0] == STUFFING_BYTE {
            proof {
                assert(self.delivered@ + Seq::<Seq<u8>>::empty() =~= self.delivered@);
                    assert(old(self).reported@ + Seq::<DemuxError>::empty() =~= old(self).reported@);
                lemma_framer_called_none::<S>(*old(self), *ctx, *self);
                assert(framer_step_calls::<S>(old(self).pid, old(self).state, old(self).buf@, bytes@) =~= Seq::<FramerCall>::empty());
                assert(self.calls@ =~= old(self).calls@ + Seq::<FramerCall>::empty());
            }
            return (&bytes[bytes.len()..bytes.len()], true);
        }
        if bytes.len() >= SectionCommonHeader::SIZE {
            let header = SectionCommonHeader::new(&bytes[0..SectionCommonHeader::SIZE]);
            let total = SectionCommonHeader::SIZE + header.section_length;
            if let Some(e) = S::check_header(self.pid, &header) {
                self.report(ctx, e);
                let ghost fa = *self;
                // skip the remainder of the (rejected) section body
                let skip = if total < bytes.len() {
                    total
                } else {
                    bytes.len()
                };
                if total > skip {
                    self.state = FramerState::Ignoring { remaining: total - skip };
                }
                proof {
                    assert(self.delivered@ + Seq::<Seq<u8>>::empty() =~= self.delivered@);
                    assert(old(self).reported@ + Seq::<DemuxError>::empty() =~= old(self).reported@);
                    lemma_framer_called_none::<S>(fa, *ctx, *self);
                    lemma_framer_called_trans::<S>(*old(self), *old(ctx), fa, *ctx, *self, *ctx);
                    assert(framer_step_calls::<S>(old(self).pid, old(self).state, old(self).buf@, bytes@) =~= seq![FramerCall::Error(e)]);
                    assert(self.calls@ =~= old(self).calls@ + seq![FramerCall::Error(e)]);
                }
                return (&bytes[skip..bytes.len()], false);
            }
            if bytes.len() >= total {
                // zero-copy fast path: whole section is in the caller's buffer
                let (section, rest) = bytes.split_at(total);
                S::deliver_section(&mut self.parser, ctx, &header, section);
                proof {
                    self.delivered@ = self.delivered@.push(section@);
                    self.calls@ = self.calls@.push(FramerCall::Section(section@));
                    assert(section@.subrange(0, 3) =~= bytes@.subrange(0, 3));
                    lemma_framer_called_section::<S>(*old(self), *old(ctx), section@, *self, *ctx);
                    assert(framer_step_calls::<S>(old(self).pid, old(self).state, old(self).buf@, bytes@) =~= seq![FramerCall::Section(section@)]);
                    assert(self.calls@ =~= old(self).calls@ + seq![FramerCall::Section(section@)]);

                    assert(section@ =~= bytes@.subrange(0, total as int));
                    assert(old(self).delivered@ + seq![section@] =~= self.delivered@);
                    assert(old(self).reported@ + Seq::<DemuxError>::empty() =~= old(self).reported@);
                }
                (rest, false)
            } else {
                // partial section - buffer what we have and wait for more
                self.buf.clear();
                self.buf.extend_from_slice(bytes);
                self.state = FramerState::Collecting { target: total };
                proof {
                    assert(self.buf@ =~= bytes@);
                    assert(bytes@.subrange(0, 3) =~= self.buf@.subrange(0, 3));
                    assert(self.delivered@ + Seq::<Seq<u8>>::empty() =~= self.delivered@);
                    lemma_framer_called_none::<S>(*old(self), *ctx, *self);
                    assert(framer_step_calls::<S>(old(self).pid, old(self).state, old(self).buf@, bytes@) =~= Seq::<FramerCall>::empty());
                    assert(self.calls@ =~= old(self).calls@ + Seq::<FramerCall>::empty());
                    assert(old(self).reported@ + Seq::<DemuxError>::empty() =~= old(self).reported@);
                }
                (&bytes[bytes.len()..bytes.len()], false)
            }
        } else {
            // not enough bytes to parse even the common header - buffer them
            self.buf.clear();
            self.buf.extend_from_slice(bytes);
            self.state = FramerState::Collecting { target: SectionCommonHeader::SIZE };
            proof {
                lemma_framer_called_none::<S>(*old(self), *ctx, *self);
                assert(framer_step_calls::<S>(old(self).pid, old(self).state, old(self).buf@, bytes@) =~= Seq::<FramerCall>::empty());
                assert(self.calls@ =~= old(self).calls@ + Seq::<FramerCall>::empty());
                assert(self.buf@ =~= bytes@);
                assert(self.delivered@ + Seq::<Seq<u8>>::empty() =~= self.delivered@);
                    assert(old(self).reported@ + Seq::<DemuxError>::empty() =~= old(self).reported@);
            }
            (&bytes[bytes.len()..bytes.len()], false)
        }
    }

    /// One step of the state machine while collecting a section into the buffer.
    fn step_collecting<'a>(&mut self, ctx: &mut S::Context, bytes: &'a [u8]) -> (r: (&'a [u8], bool))
        requires
            old(self).state is Collecting,
            framer_wf::<S>(old(self).state, old(self).buf@),
            bytes@.len() > 0,
        ensures
            ({
                let s = framer_step::<S>(old(self).state, old(self).buf@, bytes@);
                &&& final(self).state == s.state
                &&& final(self).buf@ == s.buf
                &&& r.0@ == s.rest
                &&& r.1 == s.stop
                &&& final(self).delivered@ == old(self).delivered@ + s.delivered
            }),
            final(self).reported@ == old(self).reported@ + framer_step_errors::<S>(
                old(self).pid,
                old(self).state,
                old(self).buf@,
                bytes@,
            ),
            framer_wf::<S>(final(self).state, final(self).buf@),
            r.0@.len() < bytes@.len(),
            !r.1,
            final(self).synced == old(self).synced,
            final(self).pid == old(self).pid,
            framer_called(*old(self), *old(ctx), *final(self), *final(ctx)),
            final(self).calls@ == old(self).calls@ + framer_step_calls::<S>(
                old(self).pid,
                old(self).state,
                old(self).buf@,
                bytes@,
            ),
    {
        let target = match self.state {
            FramerState::Collecting { target } => target,
            _ => 0,
        };
        let ghost buf0 = self.buf@;
        let needed = target - self.buf.len();
        let take = if needed < bytes.len() {
            needed
        } else {
            bytes.len()
        };
        self.buf.extend_from_slice(&bytes[0..take]);
        let rest = &bytes[take..bytes.len()];
        proof {
            assert(self.buf@ =~= buf0 + bytes@.subrange(0, take as int));
        }
        if self.buf.len() == target && target == SectionCommonHeader::SIZE {
            // we were waiting for the common header; now parse it and promote
            // target to the full section length
            let header = SectionCommonHeader::new(&self.buf.as_slice()[0..SectionCommonHeader::SIZE]);
            proof {
                assert(self.buf@.subrange(0, 3) =~= self.buf@);
            }
            let full_len = SectionCommonHeader::SIZE + header.section_length;
            let ghost fb = *self;
            if let Some(e) = S::check_header(self.pid, &header) {
                self.report(ctx, e);
                let ghost fa = *self;
                self.buf.clear();
                self.state = FramerState::Ignoring { remaining: header.section_length };
                proof {
                    lemma_framer_called_none::<S>(*old(self), *old(ctx), fb);
                    lemma_framer_called_trans::<S>(*old(self), *old(ctx), fb, *old(ctx), fa, *ctx);
                    lemma_framer_called_none::<S>(fa, *ctx, *self);
                    lemma_framer_called_trans::<S>(*old(self), *old(ctx), fa, *ctx, *self, *ctx);
                    assert(framer_step_calls::<S>(old(self).pid, old(self).state, old(self).buf@, bytes@) =~= seq![FramerCall::Error(e)]);
                    assert(self.calls@ =~= old(self).calls@ + seq![FramerCall::Error(e)]);
                    assert(self.delivered@ + Seq::<Seq<u8>>::empty() =~= self.delivered@);
                    assert(old(self).reported@ + Seq::<DemuxError>::empty() =~= old(self).reported@);
                }
                return (rest, false);
            }
            if full_len == SectionCommonHeader::SIZE {
                // compact section with section_length==0: the header *is* the whole
                // section, so deliver immediately
                S::deliver_section(&mut self.parser, ctx, &header, self.buf.as_slice());
                proof {
                    self.delivered@ = self.delivered@.push(self.buf@);
                    self.calls@ = self.calls@.push(FramerCall::Section(self.buf@));
                    assert(old(self).delivered@ + seq![self.buf@] =~= self.delivered@);
                    assert(old(self).reported@ + Seq::<DemuxError>::empty() =~= old(self).reported@);
                    lemma_framer_called_none::<S>(*old(self), *old(ctx), fb);
                    lemma_framer_called_section::<S>(fb, *old(ctx), self.buf@, *self, *ctx);
                    lemma_framer_called_trans::<S>(*old(self), *old(ctx), fb, *old(ctx), *self, *ctx);
                    assert(framer_step_calls::<S>(old(self).pid, old(self).state, old(self).buf@, bytes@) =~= seq![FramerCall::Section(self.buf@)]);
                    assert(self.calls@ =~= old(self).calls@ + seq![FramerCall::Section(self.buf@)]);
                }
                let ghost fa = *self;
                self.buf.clear();
                self.state = FramerState::Idle;
                proof {
                    lemma_framer_called_none::<S>(fa, *ctx, *self);
                    lemma_framer_called_trans::<S>(*old(self), *old(ctx), fa, *ctx, *self, *ctx);
                }
                return (rest, false);
            }
            self.state = FramerState::Collecting { target: full_len };
            proof {
                lemma_framer_called_none::<S>(*old(self), *ctx, *self);
                assert(framer_step_calls::<S>(old(self).pid, old(self).state, old(self).buf@, bytes@) =~= Seq::<FramerCall>::empty());
                assert(self.calls@ =~= old(self).calls@ + Seq::<FramerCall>::empty());
                assert(self.delivered@ + Seq::<Seq<u8>>::empty() =~= self.delivered@);
                    assert(old(self).reported@ + Seq::<DemuxError>::empty() =~= old(self).reported@);
            }
            return (rest, false);
        }
        if self.buf.len() == target {
            // we have a whole section buffered
            proof {
                assert(self.buf@.subrange(0, 3) =~= buf0.subrange(0, 3));
            }
            let header = SectionCommonHeader::new(&self.buf.as_slice()[0..SectionCommonHeader::SIZE]);
            let ghost fb = *self;
            S::deliver_section(&mut self.parser, ctx, &header, self.buf.as_slice());
            proof {
                self.delivered@ = self.delivered@.push(self.buf@);
                self.calls@ = self.calls@.push(FramerCall::Section(self.buf@));
                assert(old(self).delivered@ + seq![self.buf@] =~= self.delivered@);
                    assert(old(self).reported@ + Seq::<DemuxError>::empty() =~= old(self).reported@);
                lemma_framer_called_none::<S>(*old(self), *old(ctx), fb);
                lemma_framer_called_section::<S>(fb, *old(ctx), self.buf@, *self, *ctx);
                lemma_framer_called_trans::<S>(*old(self), *old(ctx), fb, *old(ctx), *self, *ctx);
                assert(framer_step_calls::<S>(old(self).pid, old(self).state, old(self).buf@, bytes@) =~= seq![FramerCall::Section(self.buf@)]);
                assert(self.calls@ =~= old(self).calls@ + seq![FramerCall::Section(self.buf@)]);
            }
            let ghost fa = *self;
            self.buf.clear();
            self.state = FramerState::Idle;
            proof {
                lemma_framer_called_none::<S>(fa, *ctx, *self);
                lemma_framer_called_trans::<S>(*old(self), *old(ctx), fa, *ctx, *self, *ctx);
            }
        } else {
            proof {
                lemma_framer_called_none::<S>(*old(self), *ctx, *self);
                assert(framer_step_calls::<S>(old(self).pid, old(self).state, old(self).buf@, bytes@) =~= Seq::<FramerCall>::empty());
                assert(self.calls@ =~= old(self).calls@ + Seq::<FramerCall>::empty());
                assert(self.delivered@ + Seq::<Seq<u8>>::empty() =~= self.delivered@);
                    assert(old(self).reported@ + Seq::<DemuxError>::empty() =~= old(self).reported@);
                if self.buf@.len() >= 3 {
                    assert(self.buf@.subrange(0, 3) =~= buf0.subrange(0, 3));
                }
            }
        }
        (rest, false)
    }

    /// One step of the state machine while discarding the body of a rejected section.
    fn step_ignoring<'a>(&mut self, bytes: &'a [u8]) -> (r: (&'a [u8], bool))
        requires
            old(self).state is Ignoring,
            framer_wf::<S>(old(self).state, old(self).buf@),
            bytes@.len() > 0,
        ensures
            ({
                let s = framer_step::<S>(old(self).state, old(self).buf@, bytes@);
                &&& final(self).state == s.state
                &&& final(self).buf@ == s.buf
                &&& r.0@ == s.rest
                &&& r.1 == s.stop
                &&& final(self).delivered@ == old(self).delivered@ + s.delivered
            }),
            framer_wf::<S>(final(self).state, final(self).buf@),
            r.0@.len() < bytes@.len() || (r.0@.len() == bytes@.len() && ignoring_rank(
                final(self).state,
            ) < ignoring_rank(old(self).state)),
            !r.1,
            final(self).synced == old(self).synced,
            final(self).pid == old(self).pid,
            final(self).calls@ == old(self).calls@,
            framer_step_calls::<S>(old(self).pid, old(self).state, old(self).buf@, bytes@)
                == Seq::<FramerCall>::empty(),
            final(self).parser == old(self).parser,
            final(self).reported@ == old(self).reported@ + framer_step_errors::<S>(
                old(self).pid,
                old(self).state,
                old(self).buf@,
                bytes@,
            ),
    {
        let remaining = match self.state {
            FramerState::Ignoring { remaining } => remaining,
            _ => 0,
        };
        let drop = if remaining < bytes.len() {
            remaining
        } else {
            bytes.len()
        };
        if drop == remaining {
            self.state = FramerState::Idle;
        } else {
            self.state = FramerState::Ignoring { remaining: remaining - drop };
        }
        proof {
            assert(self.delivered@ + Seq::<Seq<u8>>::empty() =~= self.delivered@);
            assert(self.reported@ + Seq::<DemuxError>::empty() =~= self.reported@);
        }
        (&bytes[drop..bytes.len()], false)
    }
}

/// A section-syntax header is accepted exactly when its `section_syntax_indicator` is set and
/// its `section_length` leaves room for the 5-byte table syntax header without exceeding the
/// limit of 4093 bytes; the `private_indicator` bit (set, for example, in DVB tables such as
/// the SDT) plays no part.
pub proof fn lemma_section_syntax_header_accepted<P: WholeSectionSyntaxPayloadParser>(
    h: SectionCommonHeader,
)
    ensures
        SectionSyntaxMode::<P>::spec_valid(h) <==> (h.section_syntax_indicator && 5
            <= h.section_length <= 4093),
        SectionSyntaxMode::<P>::spec_valid(h) == SectionSyntaxMode::<P>::spec_valid(
            (SectionCommonHeader { private_indicator: !h.private_indicator, ..h }),
        ),
{
}

} // verus!
