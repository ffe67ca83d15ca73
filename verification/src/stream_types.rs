//! The `stream_type` codes that _ISO/IEC 13818-1_ and ATSC name; a [`StreamType`] is made
//! from one as `StreamType(H264)`.
//!
//! [`StreamType`]: crate::StreamType
use vstd::prelude::*;

verus! {

// 0x00 reserved
/// ISO/IEC 11172 Video
pub const ISO_11172_VIDEO: u8 = 0x01;

/// ITU-T Rec. H.262 | ISO/IEC 13818-2 Video or ISO/IEC 11172-2 constrained parameter video stream
pub const H262: u8 = 0x02;

/// ISO/IEC 11172 Audio
pub const ISO_11172_AUDIO: u8 = 0x03;

/// ISO/IEC 13818-3 Audio
pub const ISO_138183_AUDIO: u8 = 0x04;

/// ITU-T Rec. H.222.0 | ISO/IEC 13818-1 private_sections
pub const H222_0_PRIVATE_SECTIONS: u8 = 0x05;

/// ITU-T Rec. H.222.0 | ISO/IEC 13818-1 PES packets containing private data
pub const H222_0_PES_PRIVATE_DATA: u8 = 0x06;

/// ISO/IEC 13522 MHEG
pub const MHEG: u8 = 0x07;

/// ITU-T Rec. H.222.0 | ISO/IEC 13818-1 Annex A DSM-CC
pub const H222_0_DSM_CC: u8 = 0x08;

/// ITU-T Rec. H.222.1
pub const H2221: u8 = 0x09;

/// ISO/IEC 13818-6 DSM CC multiprotocol encapsulation
pub const ISO_13818_6_MULTIPROTOCOL_ENCAPSULATION: u8 = 0x0A;

/// ISO/IEC 13818-6 DSM CC U-N messages
pub const DSMCC_UN_MESSAGES: u8 = 0x0B;

/// ISO/IEC 13818-6 DSM CC stream descriptors
pub const DSMCC_STREAM_DESCRIPTORS: u8 = 0x0C;

/// ISO/IEC 13818-6 DSM CC tabled data
pub const DSMCC_SECTIONS: u8 = 0x0D;

/// ITU-T Rec. H.222.0 | ISO/IEC 13818-1 auxiliary
pub const H222_0_AUXILIARY: u8 = 0x0E;

/// ISO/IEC 13818-7 Audio with ADTS transport syntax
pub const ADTS: u8 = 0x0F;

/// ISO/IEC 14496-2 Visual
pub const ISO_14496_2_VISUAL: u8 = 0x10;

/// ISO/IEC 14496-3 Audio with the LATM transport syntax as defined in ISO/IEC 14496-3 / AMD 1
pub const LATM: u8 = 0x11;

/// ISO/IEC 14496-1 SL-packetized stream or FlexMux stream carried in PES packets
pub const FLEX_MUX_PES: u8 = 0x12;

/// ISO/IEC 14496-1 SL-packetized stream or FlexMux stream carried in ISO/IEC14496_sections.
pub const FLEX_MUX_ISO_14496_SECTIONS: u8 = 0x13;

/// ISO/IEC 13818-6 Synchronized Download Protocol
pub const SYNCHRONIZED_DOWNLOAD_PROTOCOL: u8 = 0x14;

/// Metadata carried in PES packets
pub const METADATA_IN_PES: u8 = 0x15;

/// Metadata carried in metadata_sections
pub const METADATA_IN_METADATA_SECTIONS: u8 = 0x16;

/// Metadata carried in ISO/IEC 13818-6 Data Carousel
pub const DSMCC_DATA_CAROUSEL_METADATA: u8 = 0x17;

/// Metadata carried in ISO/IEC 13818-6 Object Carousel
pub const DSMCC_OBJECT_CAROUSEL_METADATA: u8 = 0x18;

/// Metadata carried in ISO/IEC 13818-6 Synchronized Download Protocol
pub const SYNCHRONIZED_DOWNLOAD_PROTOCOL_METADATA: u8 = 0x19;

/// IPMP stream (defined in ISO/IEC 13818-11, MPEG-2 IPMP)
pub const IPMP: u8 = 0x1a;

/// AVC video stream as defined in ITU-T Rec. H.264 | ISO/IEC 14496-10 Video
pub const H264: u8 = 0x1b;

/// ISO/IEC 14496-3 Audio, without using any additional transport syntax, such as DST, ALS and SLS
pub const AUDIO_WITHOUT_TRANSPORT_SYNTAX: u8 = 0x1c;

/// ISO/IEC 14496-17 Text
pub const ISO_14496_17_TEXT: u8 = 0x1d;

// 0x1e-0x23 reserved
/// ITU-T Rec. H.265 and ISO/IEC 23008-2
pub const H265: u8 = 0x24;

// 0x26-0x41 reserved
/// Chinese Video Standard
pub const CHINESE_VIDEO_STANDARD: u8 = 0x42;

// 0x43-0x7f reserved
// 0x80 privately defined
/// Dolby Digital (AC-3) audio for ATSC
pub const ATSC_DOLBY_DIGITAL_AUDIO: u8 = 0x81;

// 0x82-0x94 privately defined
/// ATSC Data Service Table, Network Resources Table
pub const ATSC_DSMCC_NETWORK_RESOURCES_TABLE: u8 = 0x95;

// 0x95-0xc1 privately defined
/// PES packets containing ATSC streaming synchronous data
pub const ATSC_DSMCC_SYNCHRONOUS_DATA: u8 = 0xc2;

// 0xc3-0xff privately defined,
} // verus!
