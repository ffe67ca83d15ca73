use mpeg2ts_reader::pes;

/// Writes values into a byte buffer, most significant bit first.
struct BitWriter {
    out: Vec<u8>,
    nbits: usize,
}

impl BitWriter {
    fn new() -> BitWriter {
        BitWriter {
            out: Vec::new(),
            nbits: 0,
        }
    }

    fn write(&mut self, bits: u32, value: u64) {
        for i in (0..bits).rev() {
            let bit = (value >> i) & 1;
            if self.nbits % 8 == 0 {
                self.out.push(0);
            }
            if bit == 1 {
                let last = self.out.len() - 1;
                self.out[last] |= 0x80 >> (self.nbits % 8);
            }
            self.nbits += 1;
        }
    }

    fn write_bit(&mut self, b: bool) {
        self.write(1, if b { 1 } else { 0 });
    }

    fn into_writer(self) -> Vec<u8> {
        assert_eq!(self.nbits % 8, 0);
        self.out
    }
}

fn write_ts(w: &mut BitWriter, ts: u64, prefix: u8) {
    assert!(ts < 1u64 << 33);
    w.write(4, u64::from(prefix & 0b1111));
    w.write(3, (ts & 0b1_1100_0000_0000_0000_0000_0000_0000_0000) >> 30);
    w.write(1, 1);
    w.write(15, (ts & 0b0_0011_1111_1111_1111_1000_0000_0000_0000) >> 15);
    w.write(1, 1);
    w.write(15, ts & 0b0_0000_0000_0000_0000_0111_1111_1111_1111);
    w.write(1, 1);
}

fn write_escr(w: &mut BitWriter, base: u64, extension: u16) {
    assert!(base < 1u64 << 33);
    assert!(extension < 1u16 << 9);
    w.write(2, 0b11);
    w.write(3, (base & 0b1_1100_0000_0000_0000_0000_0000_0000_0000) >> 30);
    w.write(1, 1);
    w.write(15, (base & 0b0_0011_1111_1111_1111_1000_0000_0000_0000) >> 15);
    w.write(1, 1);
    w.write(15, base & 0b0_0000_0000_0000_0000_0111_1111_1111_1111);
    w.write(1, 1);
    w.write(9, u64::from(extension));
    w.write(1, 1);
}

fn write_es_rate(w: &mut BitWriter, rate: u32) {
    assert!(rate < 1u32 << 22);
    w.write(1, 1);
    w.write(22, u64::from(rate));
    w.write(1, 1);
}

fn make_test_data<F: Fn(&mut BitWriter)>(builder: F) -> Vec<u8> {
    let mut w = BitWriter::new();
    builder(&mut w);
    w.into_writer()
}

#[test]
fn parse_header() {
    let data = make_test_data(|w| {
        w.write(24, 1); // packet_start_code_prefix
        w.write(8, 7); // stream_id
        w.write(16, 7); // PES_packet_length

        w.write(2, 0b10); // check-bits
        w.write(2, 0); // PES_scrambling_control
        w.write(1, 0); // pes_priority
        w.write(1, 1); // data_alignment_indicator
        w.write(1, 0); // copyright
        w.write(1, 0); // original_or_copy
        w.write(2, 0b10); // PTS_DTS_flags
        w.write(1, 1); // ESCR_flag
        w.write(1, 1); // ES_rate_flag
        w.write(1, 1); // DSM_trick_mode_flag
        w.write(1, 1); // additional_copy_info_flag
        w.write(1, 1); // PES_CRC_flag
        w.write(1, 0); // PES_extension_flag
        let pes_header_length = 5 + 6 + 3 + 1 + 1 + 2;
        w.write(8, pes_header_length);
        write_ts(w, 123456789, 0b0010);
        write_escr(w, 0b111111111111111111111111111111111, 234);
        write_es_rate(w, 1234567);

        // DSM_trick_mode,
        w.write(3, 0b00); // trick_mode_control (== fast_forward)
        w.write(2, 2); // field_id
        w.write_bit(true); // intra_slice_refresh
        w.write(2, 0); // frequency_truncation

        // additonal_copy_info,
        w.write(1, 1); // marker_bit
        w.write(7, 123); // additional_copy_info
        w.write(16, 54321); // previous_PES_packet_CRC
    });
    let header = pes::PesHeader::from_bytes(&data[..]).unwrap();
    assert_eq!(pes::StreamId::Unknown(7), header.stream_id());

    match header.contents() {
        pes::PesContents::Parsed(parsed_contents) => {
            let p = parsed_contents.expect("expected PesContents::Parsed(Some(_)) but was None");
            assert_eq!(0, p.pes_priority());
            assert_eq!(pes::DataAlignment::Aligned, p.data_alignment_indicator());
            assert_eq!(pes::Copyright::Protected, p.copyright());
            assert_eq!(pes::OriginalOrCopy::Copy, p.original_or_copy());
            match p.pts_dts() {
                Ok(pes::PtsDts::PtsOnly(Ok(ts))) => {
                    let a = ts.value();
                    let b = 123456789;
                    assert_eq!(a, b);
                }
                _ => panic!("expected PtsDts::PtsOnly"),
            }
            assert_eq!(p.payload().len(), 0);
            match p.escr() {
                Ok(escr) => {
                    assert_eq!(0b111111111111111111111111111111111, escr.base());
                    assert_eq!(234, escr.extension());
                }
                e => panic!("expected escr value, got {:?}", e),
            }
            assert!(matches!(
                p.dsm_trick_mode(),
                Ok(pes::DsmTrickMode::FastForward {
                    field_id: 2,
                    intra_slice_refresh: true,
                    frequency_truncation: pes::FrequencyTruncationCoefficientSelection::DCNonZero,
                })
            ));
            assert_eq!(p.es_rate(), Ok(pes::EsRate::new(1234567)));
            assert_eq!(p.additional_copy_info(), Ok(123));
            assert_eq!(p.previous_pes_packet_crc(), Ok(54321));
            println!("{:#?}", p);
        }
        pes::PesContents::Payload(_) => {
            panic!("expected PesContents::Parsed, got PesContents::Payload")
        }
    }
}

#[test]
fn pts() {
    let pts_prefix = 0b0010;
    let pts = make_test_data(|w| write_ts(w, 0b1_0101_0101_0101_0101_0101_0101_0101_0101, pts_prefix));
    let a = pes::Timestamp::from_pts_bytes(&pts[..]).unwrap().value();
    let b = 0b1_0101_0101_0101_0101_0101_0101_0101_0101;
    assert_eq!(a, b);
}

#[test]
fn dts() {
    let pts_prefix = 0b0001;
    let pts = make_test_data(|w| write_ts(w, 0b0_1010_1010_1010_1010_1010_1010_1010_1010, pts_prefix));
    let a = pes::Timestamp::from_dts_bytes(&pts[..]).unwrap().value();
    let b = 0b0_1010_1010_1010_1010_1010_1010_1010_1010;
    assert_eq!(a, b);
}

#[test]
fn timestamp_ones() {
    let pts_prefix = 0b0010;
    let pts = make_test_data(|w| write_ts(w, 0b1_1111_1111_1111_1111_1111_1111_1111_1111, pts_prefix));
    let a = pes::Timestamp::from_pts_bytes(&pts[..]).unwrap().value();
    let b = 0b1_1111_1111_1111_1111_1111_1111_1111_1111;
    assert_eq!(a, b);
}

#[test]
fn timestamp_zeros() {
    let pts_prefix = 0b0010;
    let pts = make_test_data(|w| write_ts(w, 0, pts_prefix));
    let a = pes::Timestamp::from_pts_bytes(&pts[..]).unwrap().value();
    assert_eq!(a, 0);
}

#[test]
fn timestamp_bad_prefix() {
    let pts_prefix = 0b0010;
    let mut pts = make_test_data(|w| write_ts(w, 1234, pts_prefix));
    pts[0] |= 0b10000000;
    assert_eq!(
        pes::Timestamp::from_pts_bytes(&pts[..]),
        Err(pes::TimestampError::IncorrectPrefixBits {
            expected: 0b0010,
            actual: 0b1010
        })
    )
}

#[test]
fn timestamp_bad_marker() {
    let pts_prefix = 0b0010;
    let mut pts = make_test_data(|w| write_ts(w, 1234, pts_prefix));
    pts[0] &= 0b11111110;
    assert_eq!(
        pes::Timestamp::from_pts_bytes(&pts[..]),
        Err(pes::TimestampError::MarkerBitNotSet { bit_number: 7 })
    )
}

#[test]
fn header_length_doesnt_fit() {
    let data = make_test_data(|w| {
        w.write(24, 1);
        w.write(8, 7);
        w.write(16, 7);
        w.write(2, 0b10);
        w.write(2, 0);
        w.write(1, 0);
        w.write(1, 1);
        w.write(1, 0);
        w.write(1, 0);
        w.write(2, 0b00);
        w.write(1, 0);
        w.write(1, 0);
        w.write(1, 0);
        w.write(1, 0);
        w.write(1, 1); // PES_CRC_flag
        w.write(1, 0);
        w.write(8, 2); // PES_header_data_length
        w.write(8, 1); // only one byte of previous_PES_packet_CRC
    });
    let header = pes::PesHeader::from_bytes(&data[..]).unwrap();
    assert!(matches!(header.contents(), pes::PesContents::Parsed(None)));
}

#[test]
fn pes_header_data_length_too_short() {
    let data = make_test_data(|w| {
        w.write(24, 1);
        w.write(8, 7);
        w.write(16, 7);
        w.write(2, 0b10);
        w.write(2, 0);
        w.write(1, 0);
        w.write(1, 1);
        w.write(1, 0);
        w.write(1, 0);
        w.write(2, 0b00);
        w.write(1, 0);
        w.write(1, 0);
        w.write(1, 0);
        w.write(1, 0);
        w.write(1, 1); // PES_CRC_flag
        w.write(1, 0);
        w.write(8, 1); // PES_header_data_length too small for the CRC
        w.write(8, 2);
    });
    let header = pes::PesHeader::from_bytes(&data[..]).unwrap();
    assert!(matches!(header.contents(), pes::PesContents::Parsed(None)));
}

#[test]
fn timestamp_wraparound() {
    let early = pes::Timestamp::from_u64(10);
    let late = pes::Timestamp::from_u64(pes::Timestamp::MAX_VALUE - 10);
    assert!(early.likely_wrapped_since(late));
    assert!(!late.likely_wrapped_since(early));
    assert_eq!(pes::Timestamp::TIMEBASE, 90_000);
}

#[test]
fn pes_header_rejects_bad_prefix_and_short_buffer() {
    assert!(pes::PesHeader::from_bytes(&[0, 0, 1, 0xe0, 0]).is_none());
    assert!(pes::PesHeader::from_bytes(&[0, 0, 2, 0xe0, 0, 0]).is_none());
    let h = pes::PesHeader::from_bytes(&[0, 0, 1, 0xe0, 0, 0]).unwrap();
    assert_eq!(h.stream_id(), pes::StreamId::Video(0));
    assert!(matches!(h.pes_packet_length(), pes::PesLength::Unbounded));
    let h = pes::PesHeader::from_bytes(&[0, 0, 1, 0xbe, 0x01, 0x02]).unwrap();
    assert_eq!(h.stream_id(), pes::StreamId::PaddingStream);
    assert!(matches!(h.pes_packet_length(), pes::PesLength::Bounded(258)));
    assert!(matches!(h.contents(), pes::PesContents::Payload(_)));
}

#[test]
fn stream_id_from_byte() {
    assert_eq!(pes::StreamId::from(0xc5), pes::StreamId::Audio(5));
    assert_eq!(pes::StreamId::from(0xbd), pes::StreamId::PrivateStream1);
    assert_eq!(pes::StreamId::from(0x12), pes::StreamId::Unknown(0x12));
    assert_eq!(pes::StreamId::from(0xff), pes::StreamId::ProgramStreamDirectory);
}
