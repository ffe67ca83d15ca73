//! Error types for reporting problems found during transport stream parsing.
//!
//! The [`ErrorSink`] trait provides a callback mechanism for receiving [`DemuxError`]
//! notifications.  Types implementing `DemuxContext` must also implement `ErrorSink`.
use crate::packet;
use crate::psi::pat;
use vstd::prelude::*;

verus! {

/// A problem detected while parsing transport stream data.
///
/// These errors are delivered to [`ErrorSink::error()`] when the application opts in by
/// overriding that method.  Each variant carries enough context (PID, table ID, etc.) to
/// identify the source of the problem without heap allocation.
#[allow(inconsistent_fields)]
#[derive(Debug, PartialEq, Eq, Structural, Clone, Copy)]
pub enum DemuxError {
    /// The transport_error_indicator was set in a packet header.
    TransportError {
        /// The PID of the packet with the error indicator set.
        pid: packet::Pid,
    },
    /// A scrambled packet was encountered and dropped (descrambling is not supported).
    ScrambledPacket {
        /// The PID of the scrambled packet.
        pid: packet::Pid,
    },
    /// A PSI section had a table_id that doesn't match the expected value.
    InvalidTableId {
        /// The PID on which the section was received.
        pid: packet::Pid,
        /// The table_id value that was expected.
        expected: u8,
        /// The table_id value that was found.
        actual: u8,
    },
    /// A PSI section's section_length exceeds the allowed limit for its table type.
    SectionTooLarge {
        /// The PID on which the section was received.
        pid: packet::Pid,
        /// The table_id of the section.
        table_id: u8,
        /// The section_length value found.
        length: usize,
        /// The maximum allowed section_length.
        limit: usize,
    },
    /// A PMT section was too short to hold its fixed fields.
    PmtParseError {
        /// The PID on which the PMT was received.
        pid: packet::Pid,
        /// The number of bytes of PMT section data that were available.
        actual: usize,
    },
    /// A PES packet was received without a preceding payload_start_indicator.
    MissingPayloadStartIndicator {
        /// The PID of the elementary stream.
        pid: packet::Pid,
    },
    /// An error occurred while parsing a PES packet header.
    PesHeaderParseError {
        /// The PID of the elementary stream.
        pid: packet::Pid,
    },
    /// A PSI section's CRC32 check failed.
    CrcCheckFailed {
        /// The PID on which the section was received.
        pid: packet::Pid,
        /// The table_id of the section.
        table_id: u8,
    },
    /// A PSI section is too small to contain the CRC field.
    SectionTooSmallForCrc {
        /// The PID on which the section was received.
        pid: packet::Pid,
        /// The table_id of the section.
        table_id: u8,
        /// The actual size of the section data in bytes.
        actual: usize,
    },
    /// The section_syntax_indicator had an unexpected value.
    UnexpectedSectionSyntaxIndicator {
        /// The PID on which the section was received.
        pid: packet::Pid,
        /// The table_id of the section.
        table_id: u8,
    },
    /// Section data is shorter than the minimum required.
    SectionDataTooShort {
        /// The PID on which the section was received.
        pid: packet::Pid,
        /// The table_id of the section.
        table_id: u8,
        /// The actual size of the section data.
        actual: usize,
        /// The minimum required size.
        minimum: usize,
    },
    /// A PSI section's section_length exceeds the generic PSI limit (4093).
    PsiSectionTooLarge {
        /// The PID on which the section was received.
        pid: packet::Pid,
        /// The table_id of the section.
        table_id: u8,
        /// The section_length value found.
        length: usize,
        /// The maximum allowed section_length.
        limit: usize,
    },
    /// The pointer field in a PSI packet points beyond the available data.
    PsiPointerOutOfBounds {
        /// The PID of the PSI packet.
        pid: packet::Pid,
    },
    /// A PSI section header is too short to parse.
    SectionHeaderTooShort {
        /// The PID of the PSI packet.
        pid: packet::Pid,
    },
    /// A PSI packet has no payload.
    NoPayloadInPsiPacket {
        /// The PID of the PSI packet.
        pid: packet::Pid,
    },
    /// Continuation data arrived after a section was already complete.
    ExtraDataAfterSectionComplete {
        /// The PID on which the data was received.
        pid: packet::Pid,
    },
    /// An error occurred while parsing a PAT entry.
    PatEntryParseError {
        /// The parsing error.
        error: pat::PatError,
    },
}

/// Trait for types that receive error reports about transport stream problems.
///
/// Implement this trait on your context type to receive [`DemuxError`] notifications; an
/// implementation that has no use for them gives `error()` an empty body.
pub trait ErrorSink {
    /// How receiving the problem `e` may change this context (into `after`).  Any change is
    /// allowed, unless an implementation says more.
    open spec fn error_effect(&self, e: DemuxError, after: &Self) -> bool {
        true
    }

    /// Called when a syntax problem is found in the transport stream.
    fn error(&mut self, error: DemuxError)
        ensures
            old(self).error_effect(error, final(self)),
    ;
}

/// `ErrorSink` for the unit type, which ignores every problem; useful in tests.
impl ErrorSink for () {
    fn error(&mut self, _error: DemuxError) {
    }
}

} // verus!
