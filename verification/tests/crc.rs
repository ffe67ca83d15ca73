use mpeg2ts_reader::mpegts_crc;

#[test]
fn crc_of_message_followed_by_its_crc_is_zero() {
    let mut data = vec![0x00u8, 0xb0, 0x0d, 0x00, 0x01, 0xc1, 0x00, 0x00, 0x00, 0x01, 0xe1, 0xe0];
    let crc = mpegts_crc::sum32(&data);
    data.extend_from_slice(&crc.to_be_bytes());
    assert_eq!(mpegts_crc::sum32(&data), 0);
}

#[test]
fn crc_known_values() {
    assert_eq!(mpegts_crc::sum32(&[]), 0xffff_ffff);
    // the CRC-32/MPEG-2 check value
    assert_eq!(mpegts_crc::sum32(b"123456789"), 0x0376_e6e7);
    // the PAT section of a real stream ends with its CRC
    let pat = hex::decode("0000B00D0001C100000001E1E02D507804").unwrap();
    assert_eq!(mpegts_crc::sum32(&pat[1..]), 0);
}
