//! Structures for parsing MPEG2 Transport Stream data, per the _ISO/IEC 13818-1_ standard.
//!
//! Transport Stream data is handed to the library as byte slices; the parsing types borrow
//! slices of those buffers rather than copying them.
use vstd::prelude::*;

pub mod demultiplex;
pub mod descriptor;
pub mod error;
pub mod mpegts_crc;
pub mod packet;
pub mod pes;
pub mod psi;
pub mod stream_types;
pub mod unpacketise;

verus! {

/// The PID value of Transport Stream packets which carry only stuffing, to pad out the stream
/// to a constant bitrate.
pub const STUFFING_PID: u16 = 0x1fff;

/// The types of Elementary Stream specified in _ISO/IEC 13818-1_.
#[derive(PartialEq, Eq, Structural, Hash, Clone, Copy, Debug)]
pub struct StreamType(pub u8);

/// `true` for the `stream_type` codes whose streams carry Packetized Elementary Stream data:
/// 0x01-0x04, 0x06-0x1d, 0x24, 0x42, 0x81, 0x95 and 0xc2.
pub open spec fn spec_is_pes_code(v: u8) -> bool {
    ||| 0x01 <= v <= 0x04
    ||| 0x06 <= v <= 0x1d
    ||| v == 0x24
    ||| v == 0x42
    ||| v == 0x81
    ||| v == 0x95
    ||| v == 0xc2
}

impl StreamType {
    /// `true` if packets of a stream with this `stream_type` will carry data in Packetized
    /// Elementary Stream format.
    pub fn is_pes(self) -> (r: bool)
        ensures
            r == spec_is_pes_code(self.0),
    {
        let v = self.0;
        (0x01 <= v && v <= 0x04) || (0x06 <= v && v <= 0x1d) || v == 0x24 || v == 0x42 || v == 0x81
            || v == 0x95 || v == 0xc2
    }
}

/// The name of the stream type with the code `v`, for the codes that _ISO/IEC 13818-1_ and ATSC
/// name.
pub open spec fn spec_stream_type_name(v: u8) -> Option<Seq<char>> {
    match v {
        0x01 => Some("ISO_11172_VIDEO"@),
        0x02 => Some("H262"@),
        0x03 => Some("ISO_11172_AUDIO"@),
        0x04 => Some("ISO_138183_AUDIO"@),
        0x05 => Some("H222_0_PRIVATE_SECTIONS"@),
        0x06 => Some("H222_0_PES_PRIVATE_DATA"@),
        0x07 => Some("MHEG"@),
        0x08 => Some("H222_0_DSM_CC"@),
        0x09 => Some("H2221"@),
        0x0a => Some("ISO_13818_6_MULTIPROTOCOL_ENCAPSULATION"@),
        0x0b => Some("DSMCC_UN_MESSAGES"@),
        0x0c => Some("DSMCC_STREAM_DESCRIPTORS"@),
        0x0d => Some("DSMCC_SECTIONS"@),
        0x0e => Some("H222_0_AUXILIARY"@),
        0x0f => Some("ADTS"@),
        0x10 => Some("ISO_14496_2_VISUAL"@),
        0x11 => Some("LATM"@),
        0x12 => Some("FLEX_MUX_PES"@),
        0x13 => Some("FLEX_MUX_ISO_14496_SECTIONS"@),
        0x14 => Some("SYNCHRONIZED_DOWNLOAD_PROTOCOL"@),
        0x15 => Some("METADATA_IN_PES"@),
        0x16 => Some("METADATA_IN_METADATA_SECTIONS"@),
        0x17 => Some("DSMCC_DATA_CAROUSEL_METADATA"@),
        0x18 => Some("DSMCC_OBJECT_CAROUSEL_METADATA"@),
        0x19 => Some("SYNCHRONIZED_DOWNLOAD_PROTOCOL_METADATA"@),
        0x1a => Some("IPMP"@),
        0x1b => Some("H264"@),
        0x1c => Some("AUDIO_WITHOUT_TRANSPORT_SYNTAX"@),
        0x1d => Some("ISO_14496_17_TEXT"@),
        0x24 => Some("H265"@),
        0x42 => Some("CHINESE_VIDEO_STANDARD"@),
        0x81 => Some("ATSC_DOLBY_DIGITAL_AUDIO"@),
        0x95 => Some("ATSC_DSMCC_NETWORK_RESOURCES_TABLE"@),
        0xc2 => Some("ATSC_DSMCC_SYNCHRONOUS_DATA"@),
        _ => None,
    }
}

impl StreamType {
    /// The name of this stream type, as its code is named by _ISO/IEC 13818-1_ or ATSC, or
    /// `None` for a code (reserved or private) without a name.
    pub fn name(self) -> (r: Option<&'static str>)
        ensures
            r is Some <==> spec_stream_type_name(self.0) is Some,
            r matches Some(n) ==> spec_stream_type_name(self.0) == Some(n@),
    {
        match self.0 {
            0x01 => Some("ISO_11172_VIDEO"),
            0x02 => Some("H262"),
            0x03 => Some("ISO_11172_AUDIO"),
            0x04 => Some("ISO_138183_AUDIO"),
            0x05 => Some("H222_0_PRIVATE_SECTIONS"),
            0x06 => Some("H222_0_PES_PRIVATE_DATA"),
            0x07 => Some("MHEG"),
            0x08 => Some("H222_0_DSM_CC"),
            0x09 => Some("H2221"),
            0x0a => Some("ISO_13818_6_MULTIPROTOCOL_ENCAPSULATION"),
            0x0b => Some("DSMCC_UN_MESSAGES"),
            0x0c => Some("DSMCC_STREAM_DESCRIPTORS"),
            0x0d => Some("DSMCC_SECTIONS"),
            0x0e => Some("H222_0_AUXILIARY"),
            0x0f => Some("ADTS"),
            0x10 => Some("ISO_14496_2_VISUAL"),
            0x11 => Some("LATM"),
            0x12 => Some("FLEX_MUX_PES"),
            0x13 => Some("FLEX_MUX_ISO_14496_SECTIONS"),
            0x14 => Some("SYNCHRONIZED_DOWNLOAD_PROTOCOL"),
            0x15 => Some("METADATA_IN_PES"),
            0x16 => Some("METADATA_IN_METADATA_SECTIONS"),
            0x17 => Some("DSMCC_DATA_CAROUSEL_METADATA"),
            0x18 => Some("DSMCC_OBJECT_CAROUSEL_METADATA"),
            0x19 => Some("SYNCHRONIZED_DOWNLOAD_PROTOCOL_METADATA"),
            0x1a => Some("IPMP"),
            0x1b => Some("H264"),
            0x1c => Some("AUDIO_WITHOUT_TRANSPORT_SYNTAX"),
            0x1d => Some("ISO_14496_17_TEXT"),
            0x24 => Some("H265"),
            0x42 => Some("CHINESE_VIDEO_STANDARD"),
            0x81 => Some("ATSC_DOLBY_DIGITAL_AUDIO"),
            0x95 => Some("ATSC_DSMCC_NETWORK_RESOURCES_TABLE"),
            0xc2 => Some("ATSC_DSMCC_SYNCHRONOUS_DATA"),
            _ => None,
        }
    }
}

impl vstd::std_specs::convert::FromSpecImpl<u8> for StreamType {
    open spec fn obeys_from_spec() -> bool {
        true
    }

    open spec fn from_spec(v: u8) -> StreamType {
        StreamType(v)
    }
}

impl From<u8> for StreamType {
    fn from(val: u8) -> (r: StreamType) {
        StreamType(val)
    }
}

impl vstd::std_specs::convert::FromSpecImpl<StreamType> for u8 {
    open spec fn obeys_from_spec() -> bool {
        true
    }

    open spec fn from_spec(v: StreamType) -> u8 {
        v.0
    }
}

impl From<StreamType> for u8 {
    fn from(val: StreamType) -> (r: u8) {
        val.0
    }
}

} // verus!
