use mpeg2ts_reader::packet::{
    AdaptationControl, ContinuityCounter, Packet, Pid, SeamlessSplice, TransportScramblingControl,
    PACKET_SIZE, PCR, SYNC_BYTE,
};
use mpeg2ts_reader::pes;

#[test]
fn test_xmas_tree() {
    let mut buf = [0xffu8; PACKET_SIZE];
    buf[0] = SYNC_BYTE;
    buf[4] = 28; // adaptation_field_length
    buf[19] = 1; // transport_private_data_length
    buf[21] = 11; // adaptation_field_extension_length
    let pk = Packet::new(&buf[..]);
    assert_eq!(pk.pid().as_u16(), 0b1111111111111);
    assert!(pk.transport_error_indicator());
    assert!(pk.payload_unit_start_indicator());
    assert!(pk.transport_priority());
    assert_eq!(
        pk.transport_scrambling_control(),
        TransportScramblingControl::Undefined(3)
    );
    assert_eq!(
        pk.adaptation_control(),
        AdaptationControl::AdaptationFieldAndPayload
    );
    assert_eq!(pk.continuity_counter().count(), 0b1111);
    assert!(pk.adaptation_field().is_some());
    let ad = pk.adaptation_field().unwrap();
    assert!(ad.discontinuity_indicator());
    assert_eq!(
        ad.pcr(),
        Ok(PCR::from_parts(
            0b1_1111_1111_1111_1111_1111_1111_1111_1111,
            0b1_1111_1111
        ))
    );
    assert_eq!(1234 * 300 + 56, u64::from(PCR::from_parts(1234, 56)));
    assert_eq!(
        ad.opcr(),
        Ok(PCR::from_parts(
            0b1_1111_1111_1111_1111_1111_1111_1111_1111,
            0b1_1111_1111
        ))
    );
    assert_eq!(ad.splice_countdown(), Ok(0b11111111));
    let expected_data = [0xff];
    assert_eq!(ad.transport_private_data(), Ok(&expected_data[..]));
    let ext = ad.adaptation_field_extension().unwrap();
    assert_eq!(ext.ltw_offset(), Ok(Some(0b0111_1111_1111_1111)));
    assert_eq!(ext.piecewise_rate(), Ok(0b0011_1111_1111_1111_1111_1111));
    assert_eq!(
        ext.seamless_splice(),
        Ok(SeamlessSplice {
            splice_type: 0b1111,
            dts_next_au: pes::Timestamp::from_u64(0b1_1111_1111_1111_1111_1111_1111_1111_1111)
        })
    );
}

#[test]
fn try_new_checks_size_and_sync() {
    let mut buf = [0u8; PACKET_SIZE];
    assert!(Packet::try_new(&buf[..]).is_none());
    buf[0] = SYNC_BYTE;
    assert!(Packet::try_new(&buf[..]).is_some());
    assert!(Packet::try_new(&buf[..100]).is_none());
    assert!(Packet::is_sync_byte(0x47));
    assert!(!Packet::is_sync_byte(0x48));
}

#[test]
fn payload_only_packet() {
    let mut buf = [0u8; PACKET_SIZE];
    buf[0] = SYNC_BYTE;
    buf[1] = 0x41; // payload_unit_start_indicator, pid high bits
    buf[2] = 0x23;
    buf[3] = 0x1a; // payload only, continuity counter 10
    buf[4] = 0xab;
    let pk = Packet::new(&buf[..]);
    assert_eq!(pk.pid(), Pid::new(0x123));
    assert_eq!(pk.adaptation_control(), AdaptationControl::PayloadOnly);
    assert!(pk.adaptation_field().is_none());
    let payload = pk.payload().unwrap();
    assert_eq!(payload.len(), 184);
    assert_eq!(payload[0], 0xab);
    assert_eq!(pk.continuity_counter().count(), 10);
    assert_eq!(pk.buffer().len(), 188);
}

#[test]
fn continuity_counter_wraps() {
    let a = ContinuityCounter::new(15);
    let b = ContinuityCounter::new(0);
    assert!(b.follows(a));
    assert!(!a.follows(b));
    assert!(ContinuityCounter::new(4).follows(ContinuityCounter::new(3)));
}

#[test]
fn pcr_parts() {
    let pcr = PCR::from_parts(90_000, 299);
    assert_eq!(pcr.base(), 90_000);
    assert_eq!(pcr.extension(), 299);
    assert_eq!(u64::from(pcr), 90_000 * 300 + 299);
    let bytes = [0u8, 0, 0, 0, 0x7e, 0x05];
    let pcr = PCR::from_slice(&bytes);
    assert_eq!(pcr.base(), 0);
    assert_eq!(pcr.extension(), 5);
}

#[test]
fn adaptation_field_only_packet_has_no_payload() {
    let mut buf = [0u8; PACKET_SIZE];
    buf[0] = SYNC_BYTE;
    buf[3] = 0x20; // adaptation field only
    buf[4] = 183;
    let pk = Packet::new(&buf[..]);
    assert!(pk.payload().is_none());
    assert!(pk.adaptation_field().is_some());
}
