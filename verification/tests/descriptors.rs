use mpeg2ts_reader::descriptor::iso_639_language::AudioType;
use mpeg2ts_reader::descriptor::{
    descriptor_len, CoreDescriptors, Descriptor, DescriptorError, DescriptorIter,
};
use mpeg2ts_reader::psi::tsdt::TsdtSection;
use smptera_format_identifiers_rust::FormatIdentifier;

fn unhex(s: &str) -> Vec<u8> {
    let cleaned: String = s.chars().filter(|c| !c.is_whitespace()).collect();
    hex::decode(cleaned).unwrap()
}

#[test]
fn descriptor_descriptor() {
    let data = hex::decode(b"050443554549").unwrap();
    let desc = CoreDescriptors::from_bytes(&data).unwrap();
    match desc {
        CoreDescriptors::Registration(reg) => {
            assert_eq!(reg.format_identifier(), FormatIdentifier::from(&b"CUEI"[..]));
        }
        _ => panic!("expected a registration descriptor"),
    }
}

#[test]
fn avcvideo_descriptor() {
    let data = unhex("280442c01e3f");
    let desc = CoreDescriptors::from_bytes(&data[..]).unwrap();
    match desc {
        CoreDescriptors::AvcVideo(avc_video) => {
            assert_eq!(avc_video.level_idc(), 30);
            assert_eq!(avc_video.constraint_set0_flag(), true);
            assert_eq!(avc_video.constraint_set1_flag(), true);
            assert_eq!(avc_video.constraint_set3_flag(), false);
            assert_eq!(avc_video.constraint_set4_flag(), false);
            assert_eq!(avc_video.constraint_set5_flag(), false);
            assert_eq!(avc_video.avc_compatible_flags(), 0);
            assert_eq!(avc_video.profile_idc(), 66);
            assert_eq!(avc_video.avc_still_present(), false);
            assert_eq!(avc_video.avc_24_hour_picture_flag(), false);
            assert_eq!(avc_video.frame_packing_sei_not_present_flag(), true);
        }
        _ => panic!("expected an AVC video descriptor"),
    }
}

#[test]
fn debug() {
    let data = unhex("280442c01e3f");
    let desc = CoreDescriptors::from_bytes(&data[..]).unwrap();
    match desc {
        CoreDescriptors::AvcVideo(avc_video) => {
            assert!(!format!("{:?}", avc_video).is_empty());
        }
        _ => panic!("expected an AVC video descriptor"),
    }
}

#[test]
fn iso_639_language_descriptor() {
    let data = unhex("0a04656e6700");
    let desc = CoreDescriptors::from_bytes(&data).unwrap();
    if let CoreDescriptors::ISO639Language(iso_639_language) = desc {
        let mut langs = iso_639_language.languages();
        let first = langs.next().unwrap().unwrap();
        assert_eq!("eng", first.code(encoding::DecoderTrap::Strict).unwrap());
        assert_eq!(AudioType::Undefined, first.audio_type());
        assert!(langs.next().is_none());
    } else {
        panic!("wrong descriptor type {:?}", desc);
    }
}

#[test]
fn core_descriptor() {
    let data = unhex("000100");
    let mut iter = DescriptorIter::<CoreDescriptors<'_>>::new(&data);
    let desc = iter.next().unwrap();
    assert!(!format!("{:?}", desc).is_empty());
    match desc {
        Ok(CoreDescriptors::Reserved(d)) => {
            assert_eq!(d.tag, 0);
            assert_eq!(d.payload, &[0]);
        }
        _ => panic!("expected a reserved descriptor"),
    }
}

#[test]
fn not_enough_data() {
    assert_eq!(
        descriptor_len(b"", 0, 1),
        Err(DescriptorError::NotEnoughData {
            tag: 0,
            actual: 0,
            expected: 1,
        })
    );
}

#[test]
fn registration_descriptor() {
    let data = unhex("050443554549");
    let desc = CoreDescriptors::from_bytes(&data[..]).unwrap();
    match desc {
        CoreDescriptors::Registration(reg) => {
            let expected = FormatIdentifier::from(&b"CUEI"[..]);
            assert_eq!(reg.format_identifier(), expected);
            assert!(reg.is_format(expected));
            assert!(!format!("{:?}", reg).is_empty())
        }
        _ => panic!("expected a registration descriptor"),
    }
}

#[test]
fn debug_does_not_panic() {
    let data = unhex("800201 02");
    let section = TsdtSection::new(&data);
    assert!(!format!("{:?}", section).is_empty());
}

#[test]
fn descriptor_iter_errors() {
    let data = [0x05u8];
    let mut iter = DescriptorIter::<CoreDescriptors<'_>>::new(&data);
    assert!(matches!(
        iter.next(),
        Some(Err(DescriptorError::BufferTooShort { buflen: 1 }))
    ));
    assert!(iter.next().is_none());
    let data = [0x05u8, 4, 0x43];
    let mut iter = DescriptorIter::<CoreDescriptors<'_>>::new(&data);
    assert!(matches!(
        iter.next(),
        Some(Err(DescriptorError::NotEnoughData {
            tag: 5,
            actual: 1,
            expected: 4
        }))
    ));
    assert!(iter.next().is_none());
}

#[test]
fn descriptor_too_short_for_its_kind() {
    // a registration descriptor needs 4 bytes of format identifier
    let data = unhex("05024355");
    assert!(CoreDescriptors::from_bytes(&data).is_err());
    // the tag claims more bytes than the buffer holds
    let data = unhex("0504435545");
    assert_eq!(
        CoreDescriptors::from_bytes(&data).err(),
        Some(DescriptorError::TagTooLongForBuffer {
            taglen: 4,
            buflen: 5
        })
    );
}

#[test]
fn maximum_bitrate_descriptor() {
    let data = unhex("0e03c00001");
    match CoreDescriptors::from_bytes(&data).unwrap() {
        CoreDescriptors::MaximumBitrate(d) => assert_eq!(d.maximum_bitrate(), 1),
        _ => panic!("expected a maximum bitrate descriptor"),
    }
}
