use mpeg2ts_reader::stream_types;
use mpeg2ts_reader::StreamType;

fn is_reserved(st: &StreamType) -> bool {
    match st.0 {
        0x00 | 0x1e..=0x23 | 0x25..=0x41 | 0x43..=0x7f => true,
        _ => false,
    }
}

fn is_private(st: &StreamType) -> bool {
    match st.0 {
        0x80 | 0x82..=0x94 | 0x96..=0xc1 | 0xc3..=0xff => true,
        _ => false,
    }
}

#[test]
fn pes() {
    for st in 0..=255 {
        let ty = StreamType(st);
        if ty == StreamType(0x05) || is_reserved(&ty) || is_private(&ty) {
            assert!(!ty.is_pes(), "{:?}", ty);
        } else {
            assert!(ty.is_pes(), "{:?}", ty);
        }
        assert_eq!(ty, StreamType::from(u8::from(ty)));
        let _ = format!("{:?}", ty);
    }
}

#[test]
fn stream_type_is_pes_exact_codes() {
    assert!(StreamType(0x1b).is_pes());
    assert!(StreamType(0x24).is_pes());
    assert!(!StreamType(0x05).is_pes());
    assert!(!StreamType(0x1e).is_pes());
    assert!(StreamType(0xc2).is_pes());
    assert_eq!(u8::from(StreamType(0x0f)), 0x0f);
}

#[test]
fn stream_type_names() {
    assert_eq!(Some("H264"), StreamType(0x1b).name());
    assert_eq!(Some("ISO_11172_VIDEO"), StreamType(0x01).name());
    assert_eq!(Some("ATSC_DSMCC_SYNCHRONOUS_DATA"), StreamType(0xc2).name());
    assert_eq!(None, StreamType(0x80).name());
    assert_eq!(None, StreamType(0x00).name());
}

#[test]
fn named_stream_type_codes() {
    assert_eq!(Some("H264"), StreamType(stream_types::H264).name());
    assert_eq!(Some("H265"), StreamType(stream_types::H265).name());
    assert_eq!(Some("ADTS"), StreamType(stream_types::ADTS).name());
    assert_eq!(stream_types::ATSC_DOLBY_DIGITAL_AUDIO, 0x81);
    assert!(StreamType(stream_types::H262).is_pes());
    assert!(!StreamType(stream_types::H222_0_PRIVATE_SECTIONS).is_pes());
}
