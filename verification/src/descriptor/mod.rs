//! Descriptors provide metadata about an element of a Transport Stream.
//!
//! For example, a descriptor may be used to specify the language of an audio track.  The
//! syntax of specific PSI tables often allows descriptors to be attached to the table itself,
//! or to entries within the table.
//!
//! Descriptors are a point of extension: a range of descriptor types is defined by the core
//! standard, and further descriptor types are defined by standards based upon transport
//! streams.  Descriptor-related types and methods within this crate have a type-parameter so
//! that calling code which wants to use externally-defined descriptors can supply a type which
//! supports them; [`CoreDescriptors`] covers the descriptors of _ISO/IEC 13818-1_.
pub mod avcvideo;
pub mod iso_639_language;
pub mod max_bitrate;
pub mod registration;

use self::avcvideo::AvcVideoDescriptor;
use self::iso_639_language::Iso639LanguageDescriptor;
use self::max_bitrate::MaximumBitrateDescriptor;
use self::registration::RegistrationDescriptor;
use std::marker::PhantomData;
use vstd::prelude::*;

verus! {

/// Trait allowing users of this trait to supply their own implementation of descriptor
/// parsing.
///
/// The implementation provided by this crate is [`CoreDescriptors`], which only supports
/// descriptor types directly defined by _ISO/IEC 13818-1_.  To support descriptors from other
/// standards, an alternative implementation of this trait may be passed as a type parameter to
/// methods such as `PmtSection::descriptors()`.
pub trait Descriptor<'buf>: Sized {
    /// `true` when `r` is a result that `from_bytes()` may give for the bytes `buf`.  Any
    /// result is allowed, unless an implementation says more.
    open spec fn from_bytes_result(buf: Seq<u8>, r: Result<Self, DescriptorError>) -> bool {
        true
    }

    /// Create an object that can wrap and parse the type of descriptor at the start of the
    /// given slice.
    fn from_bytes(buf: &'buf [u8]) -> (r: Result<Self, DescriptorError>)
        ensures
            Self::from_bytes_result(buf@, r),
    ;
}

/// An error during parsing of a descriptor
#[derive(Debug, PartialEq, Eq, Structural, Clone, Copy)]
pub enum DescriptorError {
    /// The amount of data available in the buffer is not enough to hold the descriptor's
    /// declared size.
    NotEnoughData {
        /// descriptor tag value
        tag: u8,
        /// actual buffer size
        actual: usize,
        /// expected buffer size
        expected: usize,
    },
    /// The descriptor's declared length runs past the end of the buffer
    TagTooLongForBuffer {
        /// actual length in descriptor header
        taglen: usize,
        /// remaining bytes in buffer (which is seen to be shorter than `taglen`)
        buflen: usize,
    },
    /// The buffer is too short to even hold the two bytes of generic descriptor header data
    BufferTooShort {
        /// the actual buffer length
        buflen: usize,
    },
    /// There is no mapping defined of the given descriptor tag value to a `Descriptor` value.
    UnhandledTagValue(u8),
}

/// Check that `buf` holds at least `len` bytes, or produce the `NotEnoughData` error for the
/// descriptor with the given tag.
pub fn descriptor_len(buf: &[u8], tag: u8, len: usize) -> (r: Result<(), DescriptorError>)
    ensures
        buf@.len() < len ==> r == Err::<(), DescriptorError>(
            DescriptorError::NotEnoughData { tag, actual: buf@.len() as usize, expected: len },
        ),
        buf@.len() >= len ==> r is Ok,
{
    if buf.len() < len {
        Err(DescriptorError::NotEnoughData { tag, actual: buf.len(), expected: len })
    } else {
        Ok(())
    }
}

/// Catch-all type for when there is no explicit handling for the given descriptor type.
#[derive(Debug)]
pub struct UnknownDescriptor<'buf> {
    /// the descriptor's identifying 'tag' value; different types of descriptors are assigned
    /// different tag values
    pub tag: u8,
    /// the descriptor's payload bytes
    pub payload: &'buf [u8],
}

impl<'buf> UnknownDescriptor<'buf> {
    /// Constructor, in the form shared by all the descriptor types that `CoreDescriptors` can
    /// hold.
    pub fn new(tag: u8, payload: &'buf [u8]) -> (r: Result<UnknownDescriptor<'buf>, DescriptorError>)
        ensures
            r matches Ok(d) && d.tag == tag && d.payload@ == payload@,
    {
        Ok(UnknownDescriptor { tag, payload })
    }
}

/// Implementation of [`Descriptor`] covering descriptor types from _ISO/IEC 13818-1_.
///
/// **NB** coverage of the range of descriptors from _ISO/IEC 13818-1_ with descriptor-type-specific
/// Rust types is incomplete; variants holding `UnknownDescriptor` give access to the raw
/// descriptor payload.
#[derive(Debug)]
pub enum CoreDescriptors<'buf> {
    /// descriptor tag values `0`, `1` and `57` to `62` inclusive are marked as reserved by _ISO/IEC 13818-1_.
    Reserved(UnknownDescriptor<'buf>),
    /// The `video_stream_descriptor()` syntax element from _ISO/IEC 13818-1_.
    VideoStream(UnknownDescriptor<'buf>),
    /// The `audio_stream_descriptor()` syntax element from _ISO/IEC 13818-1_.
    AudioStream(UnknownDescriptor<'buf>),
    /// The `hierarchy_descriptor()` syntax element from _ISO/IEC 13818-1_.
    Hierarchy(UnknownDescriptor<'buf>),
    /// The `registration_descriptor()` syntax element from _ISO/IEC 13818-1_.
    Registration(RegistrationDescriptor<'buf>),
    /// The `data_stream_alignment_descriptor()` syntax element from _ISO/IEC 13818-1_.
    DataStreamAlignment(UnknownDescriptor<'buf>),
    /// The `target_background_grid_descriptor()` syntax element from _ISO/IEC 13818-1_.
    TargetBackgroundGrid(UnknownDescriptor<'buf>),
    /// The `video_window_descriptor()` syntax element from _ISO/IEC 13818-1_.
    VideoWindow(UnknownDescriptor<'buf>),
    /// The `CA_descriptor()` syntax element from _ISO/IEC 13818-1_ ("Conditional Access").
    CA(UnknownDescriptor<'buf>),
    /// The `ISO_639_language_descriptor()` syntax element from _ISO/IEC 13818-1_.
    ISO639Language(Iso639LanguageDescriptor<'buf>),
    /// The `system_clock_descriptor()` syntax element from _ISO/IEC 13818-1_.
    SystemClock(UnknownDescriptor<'buf>),
    /// The `multiplex_buffer_utilization_descriptor()` syntax element from _ISO/IEC 13818-1_.
    MultiplexBufferUtilization(UnknownDescriptor<'buf>),
    /// The `copyright_descriptor()` syntax element from _ISO/IEC 13818-1_.
    Copyright(UnknownDescriptor<'buf>),
    /// The `maximum_bitrate_descriptor()` syntax element from _ISO/IEC 13818-1_.
    MaximumBitrate(MaximumBitrateDescriptor<'buf>),
    /// The `private_data_indicator_descriptor()` syntax element from _ISO/IEC 13818-1_.
    PrivateDataIndicator(UnknownDescriptor<'buf>),
    /// The `smoothing_buffer_descriptor()` syntax element from _ISO/IEC 13818-1_.
    SmoothingBuffer(UnknownDescriptor<'buf>),
    /// The `STD_descriptor()` syntax element from _ISO/IEC 13818-1_.
    STD(UnknownDescriptor<'buf>),
    /// The `ibp_descriptor()` syntax element from _ISO/IEC 13818-1_.
    IBP(UnknownDescriptor<'buf>),
    /// descriptor tag values `19` to `26` inclusive are marked as reserved by _ISO IEC 13818-6_ (NB a different standard than the one supported by this crate).
    IsoIec13818dash6(UnknownDescriptor<'buf>),
    /// The `MPEG-4_video_descriptor()` syntax element from _ISO/IEC 13818-1_.
    MPEG4Video(UnknownDescriptor<'buf>),
    /// The `MPEG-4_audio_descriptor()` syntax element from _ISO/IEC 13818-1_.
    MPEG4Audio(UnknownDescriptor<'buf>),
    /// The `IOD_descriptor()` syntax element from _ISO/IEC 13818-1_ ("Initial Object Descriptor").
    IOD(UnknownDescriptor<'buf>),
    /// The `SL_descriptor()` syntax element from _ISO/IEC 13818-1_ ("Synchronization Layer").
    SL(UnknownDescriptor<'buf>),
    /// The `FMC_descriptor()` syntax element from _ISO/IEC 13818-1_ ("FlexMux Channel").
    FMC(UnknownDescriptor<'buf>),
    /// The `External_ES_ID_descriptor()` syntax element from _ISO/IEC 13818-1_.
    ExternalESID(UnknownDescriptor<'buf>),
    /// The `Muxcode_descriptor()` syntax element from _ISO/IEC 13818-1_.
    MuxCode(UnknownDescriptor<'buf>),
    /// The `FmxBufferSize_descriptor()` syntax element from _ISO/IEC 13818-1_ ("FlexMux buffer").
    FmxBufferSize(UnknownDescriptor<'buf>),
    /// The `MultiplexBuffer_descriptor()` syntax element from _ISO/IEC 13818-1_.
    MultiplexBuffer(UnknownDescriptor<'buf>),
    /// The `content_labeling_descriptor()` syntax element from _ISO/IEC 13818-1_.
    MontentLabeling(UnknownDescriptor<'buf>),
    /// The `metadata_pointer_descriptor()` syntax element from _ISO/IEC 13818-1_.
    MetadataPointer(UnknownDescriptor<'buf>),
    /// The `metadata_descriptor()` syntax element from _ISO/IEC 13818-1_.
    Metadata(UnknownDescriptor<'buf>),
    /// The `metadata_STD_descriptor()` syntax element from _ISO/IEC 13818-1_.
    MetadataStd(UnknownDescriptor<'buf>),
    /// The `AVC_video_descriptor()` syntax element from _ISO/IEC 13818-1_.
    AvcVideo(AvcVideoDescriptor<'buf>),
    /// The `IPMP_descriptor()` syntax element defined in _ISO/IEC 13818-11_.
    IPMP(UnknownDescriptor<'buf>),
    /// The `AVC_timing_and_HRD_descriptor()` syntax element from _ISO/IEC 13818-1_.
    AvcTimingAndHrd(UnknownDescriptor<'buf>),
    /// The `MPEG-2_AAC_audio_descriptor()` syntax element from _ISO/IEC 13818-1_.
    Mpeg2AacAudio(UnknownDescriptor<'buf>),
    /// The `FlexMuxTiming_descriptor()` syntax element from _ISO/IEC 13818-1_.
    FlexMuxTiming(UnknownDescriptor<'buf>),
    /// The `MPEG-4_text_descriptor()` syntax element from _ISO/IEC 13818-1_.
    Mpeg4Text(UnknownDescriptor<'buf>),
    /// The `MPEG-4_audio_extension_descriptor()` syntax element from _ISO/IEC 13818-1_.
    Mpeg4AudioExtension(UnknownDescriptor<'buf>),
    /// The `Auxiliary_video_stream_descriptor()` syntax element from _ISO/IEC 13818-1_.
    AuxiliaryVideoStream(UnknownDescriptor<'buf>),
    /// The `SVC extension descriptor()` syntax element from _ISO/IEC 13818-1_.
    SvcExtension(UnknownDescriptor<'buf>),
    /// The `MVC extension descriptor()` syntax element from _ISO/IEC 13818-1_.
    MvcExtension(UnknownDescriptor<'buf>),
    /// The `J2K video descriptor()` syntax element from _ISO/IEC 13818-1_.
    J2kVideo(UnknownDescriptor<'buf>),
    /// The `MVC operation point descriptor()` syntax element from _ISO/IEC 13818-1_.
    MvcOperationPoint(UnknownDescriptor<'buf>),
    /// The `MPEG2_stereoscopic_video_format_descriptor()` syntax element from _ISO/IEC 13818-1_.
    Mpeg2StereoscopicVideoFormat(UnknownDescriptor<'buf>),
    /// The `Stereoscopic_program_info_descriptor()` syntax element from _ISO/IEC 13818-1_.
    StereoscopicProgramInfo(UnknownDescriptor<'buf>),
    /// The `Stereoscopic_video_info_descriptor()` syntax element from _ISO/IEC 13818-1_.
    StereoscopicVideoInfo(UnknownDescriptor<'buf>),
    /// The `Transport_profile_descriptor()` syntax element from _ISO/IEC 13818-1_.
    TransportProfile(UnknownDescriptor<'buf>),
    /// The `HEVC video descriptor()` syntax element from _ISO/IEC 13818-1_.
    HevcVideo(UnknownDescriptor<'buf>),
    /// The `Extension_descriptor()` syntax element from _ISO/IEC 13818-1_.
    Extension(UnknownDescriptor<'buf>),
    /// descriptor tag values `64` to `255` inclusive are marked for 'use private' use by _ISO/IEC 13818-1_.
    UserPrivate(UnknownDescriptor<'buf>),
}

/// `true` when the descriptor variant is the one that `CoreDescriptors::from_bytes()` produces
/// for the given tag value.
pub open spec fn core_descriptor_tag_matches(d: CoreDescriptors, tag: u8) -> bool {
    match d {
        CoreDescriptors::Reserved(x) => (tag == 0 || tag == 1 || (57 <= tag && tag <= 62)) && x.tag == tag,
        CoreDescriptors::VideoStream(x) => (tag == 2) && x.tag == tag,
        CoreDescriptors::AudioStream(x) => (tag == 3) && x.tag == tag,
        CoreDescriptors::Hierarchy(x) => (tag == 4) && x.tag == tag,
        CoreDescriptors::Registration(x) => tag == 5,
        CoreDescriptors::DataStreamAlignment(x) => (tag == 6) && x.tag == tag,
        CoreDescriptors::TargetBackgroundGrid(x) => (tag == 7) && x.tag == tag,
        CoreDescriptors::VideoWindow(x) => (tag == 8) && x.tag == tag,
        CoreDescriptors::CA(x) => (tag == 9) && x.tag == tag,
        CoreDescriptors::ISO639Language(x) => tag == 10,
        CoreDescriptors::SystemClock(x) => (tag == 11) && x.tag == tag,
        CoreDescriptors::MultiplexBufferUtilization(x) => (tag == 12) && x.tag == tag,
        CoreDescriptors::Copyright(x) => (tag == 13) && x.tag == tag,
        CoreDescriptors::MaximumBitrate(x) => tag == 14,
        CoreDescriptors::PrivateDataIndicator(x) => (tag == 15) && x.tag == tag,
        CoreDescriptors::SmoothingBuffer(x) => (tag == 16) && x.tag == tag,
        CoreDescriptors::STD(x) => (tag == 17) && x.tag == tag,
        CoreDescriptors::IBP(x) => (tag == 18) && x.tag == tag,
        CoreDescriptors::IsoIec13818dash6(x) => ((19 <= tag && tag <= 26)) && x.tag == tag,
        CoreDescriptors::MPEG4Video(x) => (tag == 27) && x.tag == tag,
        CoreDescriptors::MPEG4Audio(x) => (tag == 28) && x.tag == tag,
        CoreDescriptors::IOD(x) => (tag == 29) && x.tag == tag,
        CoreDescriptors::SL(x) => (tag == 30) && x.tag == tag,
        CoreDescriptors::FMC(x) => (tag == 31) && x.tag == tag,
        CoreDescriptors::ExternalESID(x) => (tag == 32) && x.tag == tag,
        CoreDescriptors::MuxCode(x) => (tag == 33) && x.tag == tag,
        CoreDescriptors::FmxBufferSize(x) => (tag == 34) && x.tag == tag,
        CoreDescriptors::MultiplexBuffer(x) => (tag == 35) && x.tag == tag,
        CoreDescriptors::MontentLabeling(x) => (tag == 36) && x.tag == tag,
        CoreDescriptors::MetadataPointer(x) => (tag == 37) && x.tag == tag,
        CoreDescriptors::Metadata(x) => (tag == 38) && x.tag == tag,
        CoreDescriptors::MetadataStd(x) => (tag == 39) && x.tag == tag,
        CoreDescriptors::AvcVideo(x) => tag == 40,
        CoreDescriptors::IPMP(x) => (tag == 41) && x.tag == tag,
        CoreDescriptors::AvcTimingAndHrd(x) => (tag == 42) && x.tag == tag,
        CoreDescriptors::Mpeg2AacAudio(x) => (tag == 43) && x.tag == tag,
        CoreDescriptors::FlexMuxTiming(x) => (tag == 44) && x.tag == tag,
        CoreDescriptors::Mpeg4Text(x) => (tag == 45) && x.tag == tag,
        CoreDescriptors::Mpeg4AudioExtension(x) => (tag == 46) && x.tag == tag,
        CoreDescriptors::AuxiliaryVideoStream(x) => (tag == 47) && x.tag == tag,
        CoreDescriptors::SvcExtension(x) => (tag == 48) && x.tag == tag,
        CoreDescriptors::MvcExtension(x) => (tag == 49) && x.tag == tag,
        CoreDescriptors::J2kVideo(x) => (tag == 50) && x.tag == tag,
        CoreDescriptors::MvcOperationPoint(x) => (tag == 51) && x.tag == tag,
        CoreDescriptors::Mpeg2StereoscopicVideoFormat(x) => (tag == 52) && x.tag == tag,
        CoreDescriptors::StereoscopicProgramInfo(x) => (tag == 53) && x.tag == tag,
        CoreDescriptors::StereoscopicVideoInfo(x) => (tag == 54) && x.tag == tag,
        CoreDescriptors::TransportProfile(x) => (tag == 55) && x.tag == tag,
        CoreDescriptors::HevcVideo(x) => (tag == 56) && x.tag == tag,
        CoreDescriptors::Extension(x) => (tag == 63) && x.tag == tag,
        CoreDescriptors::UserPrivate(x) => ((64 <= tag && tag <= 255)) && x.tag == tag,
    }
}

/// The payload bytes held by the descriptor.
pub open spec fn core_descriptor_payload(d: CoreDescriptors) -> Seq<u8> {
    match d {
        CoreDescriptors::Reserved(x) => x.payload@,
        CoreDescriptors::VideoStream(x) => x.payload@,
        CoreDescriptors::AudioStream(x) => x.payload@,
        CoreDescriptors::Hierarchy(x) => x.payload@,
        CoreDescriptors::Registration(x) => x@,
        CoreDescriptors::DataStreamAlignment(x) => x.payload@,
        CoreDescriptors::TargetBackgroundGrid(x) => x.payload@,
        CoreDescriptors::VideoWindow(x) => x.payload@,
        CoreDescriptors::CA(x) => x.payload@,
        CoreDescriptors::ISO639Language(x) => x.buf@,
        CoreDescriptors::SystemClock(x) => x.payload@,
        CoreDescriptors::MultiplexBufferUtilization(x) => x.payload@,
        CoreDescriptors::Copyright(x) => x.payload@,
        CoreDescriptors::MaximumBitrate(x) => x@,
        CoreDescriptors::PrivateDataIndicator(x) => x.payload@,
        CoreDescriptors::SmoothingBuffer(x) => x.payload@,
        CoreDescriptors::STD(x) => x.payload@,
        CoreDescriptors::IBP(x) => x.payload@,
        CoreDescriptors::IsoIec13818dash6(x) => x.payload@,
        CoreDescriptors::MPEG4Video(x) => x.payload@,
        CoreDescriptors::MPEG4Audio(x) => x.payload@,
        CoreDescriptors::IOD(x) => x.payload@,
        CoreDescriptors::SL(x) => x.payload@,
        CoreDescriptors::FMC(x) => x.payload@,
        CoreDescriptors::ExternalESID(x) => x.payload@,
        CoreDescriptors::MuxCode(x) => x.payload@,
        CoreDescriptors::FmxBufferSize(x) => x.payload@,
        CoreDescriptors::MultiplexBuffer(x) => x.payload@,
        CoreDescriptors::MontentLabeling(x) => x.payload@,
        CoreDescriptors::MetadataPointer(x) => x.payload@,
        CoreDescriptors::Metadata(x) => x.payload@,
        CoreDescriptors::MetadataStd(x) => x.payload@,
        CoreDescriptors::AvcVideo(x) => x@,
        CoreDescriptors::IPMP(x) => x.payload@,
        CoreDescriptors::AvcTimingAndHrd(x) => x.payload@,
        CoreDescriptors::Mpeg2AacAudio(x) => x.payload@,
        CoreDescriptors::FlexMuxTiming(x) => x.payload@,
        CoreDescriptors::Mpeg4Text(x) => x.payload@,
        CoreDescriptors::Mpeg4AudioExtension(x) => x.payload@,
        CoreDescriptors::AuxiliaryVideoStream(x) => x.payload@,
        CoreDescriptors::SvcExtension(x) => x.payload@,
        CoreDescriptors::MvcExtension(x) => x.payload@,
        CoreDescriptors::J2kVideo(x) => x.payload@,
        CoreDescriptors::MvcOperationPoint(x) => x.payload@,
        CoreDescriptors::Mpeg2StereoscopicVideoFormat(x) => x.payload@,
        CoreDescriptors::StereoscopicProgramInfo(x) => x.payload@,
        CoreDescriptors::StereoscopicVideoInfo(x) => x.payload@,
        CoreDescriptors::TransportProfile(x) => x.payload@,
        CoreDescriptors::HevcVideo(x) => x.payload@,
        CoreDescriptors::Extension(x) => x.payload@,
        CoreDescriptors::UserPrivate(x) => x.payload@,
    }
}

/// The fewest payload bytes that the descriptor type for the given tag accepts.
pub open spec fn core_descriptor_min_len(tag: u8) -> int {
    if tag == 5 || tag == 40 {
        4
    } else if tag == 14 {
        3
    } else {
        0
    }
}

/// What `CoreDescriptors::from_bytes()` produces for the given bytes, described by the error or
/// by the tag and payload of the descriptor.
pub open spec fn core_descriptor_result_ok(r: Result<CoreDescriptors, DescriptorError>, s: Seq<u8>) -> bool {
    if s.len() < 2 {
        r == Err::<CoreDescriptors, DescriptorError>(DescriptorError::BufferTooShort { buflen: s.len() as usize })
    } else if s[1] + 2 > s.len() {
        r == Err::<CoreDescriptors, DescriptorError>(
            DescriptorError::TagTooLongForBuffer { taglen: s[1] as usize, buflen: s.len() as usize },
        )
    } else if (s[1] as int) < core_descriptor_min_len(s[0]) {
        r == Err::<CoreDescriptors, DescriptorError>(
            DescriptorError::NotEnoughData {
                tag: s[0],
                actual: s[1] as usize,
                expected: core_descriptor_min_len(s[0]) as usize,
            },
        )
    } else {
        r matches Ok(d) && core_descriptor_tag_matches(d, s[0]) && core_descriptor_payload(d)
            == s.subrange(2, s[1] + 2)
    }
}

impl<'buf> Descriptor<'buf> for CoreDescriptors<'buf> {
    open spec fn from_bytes_result(buf: Seq<u8>, r: Result<Self, DescriptorError>) -> bool {
        core_descriptor_result_ok(r, buf)
    }

    fn from_bytes(buf: &'buf [u8]) -> (r: Result<Self, DescriptorError>)
        ensures
            core_descriptor_result_ok(r, buf@),
    {
        if buf.len() < 2 {
            return Err(DescriptorError::BufferTooShort { buflen: buf.len() });
        }
        let tag = buf[0];
        let len = buf[1] as usize;
        let tag_end = len + 2;
        if tag_end > buf.len() {
            return Err(DescriptorError::TagTooLongForBuffer { taglen: len, buflen: buf.len() });
        }
        let payload = &buf[2..tag_end];
        match tag {
            0|1|57..=62 => Ok(CoreDescriptors::Reserved(UnknownDescriptor::new(tag, payload)?)),
            2 => Ok(CoreDescriptors::VideoStream(UnknownDescriptor::new(tag, payload)?)),
            3 => Ok(CoreDescriptors::AudioStream(UnknownDescriptor::new(tag, payload)?)),
            4 => Ok(CoreDescriptors::Hierarchy(UnknownDescriptor::new(tag, payload)?)),
            5 => Ok(CoreDescriptors::Registration(RegistrationDescriptor::new(tag, payload)?)),
            6 => Ok(CoreDescriptors::DataStreamAlignment(UnknownDescriptor::new(tag, payload)?)),
            7 => Ok(CoreDescriptors::TargetBackgroundGrid(UnknownDescriptor::new(tag, payload)?)),
            8 => Ok(CoreDescriptors::VideoWindow(UnknownDescriptor::new(tag, payload)?)),
            9 => Ok(CoreDescriptors::CA(UnknownDescriptor::new(tag, payload)?)),
            10 => Ok(CoreDescriptors::ISO639Language(Iso639LanguageDescriptor::new(tag, payload)?)),
            11 => Ok(CoreDescriptors::SystemClock(UnknownDescriptor::new(tag, payload)?)),
            12 => Ok(CoreDescriptors::MultiplexBufferUtilization(UnknownDescriptor::new(tag, payload)?)),
            13 => Ok(CoreDescriptors::Copyright(UnknownDescriptor::new(tag, payload)?)),
            14 => Ok(CoreDescriptors::MaximumBitrate(MaximumBitrateDescriptor::new(tag, payload)?)),
            15 => Ok(CoreDescriptors::PrivateDataIndicator(UnknownDescriptor::new(tag, payload)?)),
            16 => Ok(CoreDescriptors::SmoothingBuffer(UnknownDescriptor::new(tag, payload)?)),
            17 => Ok(CoreDescriptors::STD(UnknownDescriptor::new(tag, payload)?)),
            18 => Ok(CoreDescriptors::IBP(UnknownDescriptor::new(tag, payload)?)),
            19..=26 => Ok(CoreDescriptors::IsoIec13818dash6(UnknownDescriptor::new(tag, payload)?)),
            27 => Ok(CoreDescriptors::MPEG4Video(UnknownDescriptor::new(tag, payload)?)),
            28 => Ok(CoreDescriptors::MPEG4Audio(UnknownDescriptor::new(tag, payload)?)),
            29 => Ok(CoreDescriptors::IOD(UnknownDescriptor::new(tag, payload)?)),
            30 => Ok(CoreDescriptors::SL(UnknownDescriptor::new(tag, payload)?)),
            31 => Ok(CoreDescriptors::FMC(UnknownDescriptor::new(tag, payload)?)),
            32 => Ok(CoreDescriptors::ExternalESID(UnknownDescriptor::new(tag, payload)?)),
            33 => Ok(CoreDescriptors::MuxCode(UnknownDescriptor::new(tag, payload)?)),
            34 => Ok(CoreDescriptors::FmxBufferSize(UnknownDescriptor::new(tag, payload)?)),
            35 => Ok(CoreDescriptors::MultiplexBuffer(UnknownDescriptor::new(tag, payload)?)),
            36 => Ok(CoreDescriptors::MontentLabeling(UnknownDescriptor::new(tag, payload)?)),
            37 => Ok(CoreDescriptors::MetadataPointer(UnknownDescriptor::new(tag, payload)?)),
            38 => Ok(CoreDescriptors::Metadata(UnknownDescriptor::new(tag, payload)?)),
            39 => Ok(CoreDescriptors::MetadataStd(UnknownDescriptor::new(tag, payload)?)),
            40 => Ok(CoreDescriptors::AvcVideo(AvcVideoDescriptor::new(tag, payload)?)),
            41 => Ok(CoreDescriptors::IPMP(UnknownDescriptor::new(tag, payload)?)),
            42 => Ok(CoreDescriptors::AvcTimingAndHrd(UnknownDescriptor::new(tag, payload)?)),
            43 => Ok(CoreDescriptors::Mpeg2AacAudio(UnknownDescriptor::new(tag, payload)?)),
            44 => Ok(CoreDescriptors::FlexMuxTiming(UnknownDescriptor::new(tag, payload)?)),
            45 => Ok(CoreDescriptors::Mpeg4Text(UnknownDescriptor::new(tag, payload)?)),
            46 => Ok(CoreDescriptors::Mpeg4AudioExtension(UnknownDescriptor::new(tag, payload)?)),
            47 => Ok(CoreDescriptors::AuxiliaryVideoStream(UnknownDescriptor::new(tag, payload)?)),
            48 => Ok(CoreDescriptors::SvcExtension(UnknownDescriptor::new(tag, payload)?)),
            49 => Ok(CoreDescriptors::MvcExtension(UnknownDescriptor::new(tag, payload)?)),
            50 => Ok(CoreDescriptors::J2kVideo(UnknownDescriptor::new(tag, payload)?)),
            51 => Ok(CoreDescriptors::MvcOperationPoint(UnknownDescriptor::new(tag, payload)?)),
            52 => Ok(CoreDescriptors::Mpeg2StereoscopicVideoFormat(UnknownDescriptor::new(tag, payload)?)),
            53 => Ok(CoreDescriptors::StereoscopicProgramInfo(UnknownDescriptor::new(tag, payload)?)),
            54 => Ok(CoreDescriptors::StereoscopicVideoInfo(UnknownDescriptor::new(tag, payload)?)),
            55 => Ok(CoreDescriptors::TransportProfile(UnknownDescriptor::new(tag, payload)?)),
            56 => Ok(CoreDescriptors::HevcVideo(UnknownDescriptor::new(tag, payload)?)),
            63 => Ok(CoreDescriptors::Extension(UnknownDescriptor::new(tag, payload)?)),
            64..=255 => Ok(CoreDescriptors::UserPrivate(UnknownDescriptor::new(tag, payload)?)),
        }
    }
}

/// Iterator over the descriptor elements in a given byte slice.
pub struct DescriptorIter<'buf, Desc> where Desc: Descriptor<'buf> {
    buf: &'buf [u8],
    phantom: PhantomData<Desc>,
}

impl<'buf, Desc> View for DescriptorIter<'buf, Desc> where Desc: Descriptor<'buf> {
    type V = Seq<u8>;

    closed spec fn view(&self) -> Seq<u8> {
        self.buf@
    }
}

impl<'buf, Desc> DescriptorIter<'buf, Desc> where Desc: Descriptor<'buf> {
    /// Create an iterator over all the descriptors in the given slice
    pub fn new(buf: &'buf [u8]) -> (r: DescriptorIter<'buf, Desc>)
        ensures
            r@ == buf@,
    {
        DescriptorIter { buf, phantom: PhantomData }
    }

    /// The next descriptor: `None` once the data is exhausted; an error (after which only
    /// `None` follows) when the remaining data cannot hold the next descriptor's header and
    /// declared payload; otherwise the result of `Desc::from_bytes()` for the next descriptor's
    /// bytes.
    pub fn next(&mut self) -> (r: Option<Result<Desc, DescriptorError>>)
        ensures
            ({
                let s = old(self)@;
                &&& s.len() == 0 ==> r is None && final(self)@ == s
                &&& s.len() == 1 ==> r == Some(Err::<Desc, DescriptorError>(DescriptorError::BufferTooShort { buflen: 1 }))
                    && final(self)@.len() == 0
                &&& s.len() >= 2 && s[1] > s.len() - 2 ==> r == Some(
                    Err::<Desc, DescriptorError>(
                        DescriptorError::NotEnoughData {
                            tag: s[0],
                            actual: (s.len() - 2) as usize,
                            expected: s[1] as usize,
                        },
                    ),
                ) && final(self)@.len() == 0
                &&& s.len() >= 2 && s[1] <= s.len() - 2 ==> (r matches Some(d)
                    && Desc::from_bytes_result(s.subrange(0, s[1] + 2), d)) && final(self)@ == s.subrange(
                    s[1] + 2,
                    s.len() as int,
                )
            }),
    {
        if self.buf.len() == 0 {
            return None;
        }
        if self.buf.len() < 2 {
            let buflen = self.buf.len();
            self.buf = &self.buf[0..0];
            Some(Err(DescriptorError::BufferTooShort { buflen }))
        } else {
            let tag = self.buf[0];
            let len = self.buf[1] as usize;
            let remaining_size = self.buf.len() - 2;
            if len > remaining_size {
                self.buf = &self.buf[0..0];
                Some(Err(DescriptorError::NotEnoughData { tag, actual: remaining_size, expected: len }))
            } else {
                let (desc, rest) = self.buf.split_at(len + 2);
                self.buf = rest;
                let d = Desc::from_bytes(desc);
                Some(d)
            }
        }
    }
}

} // verus!
