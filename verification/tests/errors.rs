use mpeg2ts_reader::demultiplex;
use mpeg2ts_reader::error::{DemuxError, ErrorSink};
use mpeg2ts_reader::packet::{AdaptationFieldError, Packet, Pid};
use mpeg2ts_reader::pes;
use mpeg2ts_reader::psi::pmt::PmtSection;
use mpeg2ts_reader::psi::{
    CompactSyntaxFramer, CrcCheckWholeSectionSyntaxPayloadParser, SectionCommonHeader,
    SectionSyntaxFramer, TableSyntaxHeader, WholeCompactSyntaxPayloadParser,
    WholeSectionSyntaxPayloadParser,
};

#[derive(Default)]
struct Errors {
    seen: Vec<DemuxError>,
}

impl ErrorSink for Errors {
    fn error(&mut self, error: DemuxError) {
        self.seen.push(error);
    }
}

struct Sink {
    count: usize,
}

impl WholeSectionSyntaxPayloadParser for Sink {
    type Context = Errors;
    fn section<'a>(
        &mut self,
        _ctx: &mut Errors,
        _header: &SectionCommonHeader,
        _table_syntax_header: &TableSyntaxHeader<'a>,
        _data: &'a [u8],
    ) {
        self.count += 1;
    }
    fn reset(&mut self) {}
}

struct CompactSink;

impl WholeCompactSyntaxPayloadParser for CompactSink {
    type Context = Errors;
    fn section(&mut self, _ctx: &mut Errors, _header: &SectionCommonHeader, _data: &[u8]) {}
    fn reset(&mut self) {}
}

fn psi_packet(pusi: bool, payload: &[u8]) -> [u8; 188] {
    let mut buf = [0xffu8; 188];
    buf[0] = 0x47;
    buf[1] = if pusi { 0x40 } else { 0 };
    buf[2] = 0;
    buf[3] = 0x10;
    buf[4..4 + payload.len()].copy_from_slice(payload);
    buf
}

#[test]
fn framer_reports_unexpected_syntax_indicator() {
    let mut framer = SectionSyntaxFramer::new(Pid::new(0), Sink { count: 0 });
    let mut errors = Errors::default();
    let pk = psi_packet(true, &[0, 0x42, 0x00, 0x05, 1, 2, 3, 4, 5]);
    framer.consume(&mut errors, &Packet::new(&pk));
    assert!(matches!(
        errors.seen[0],
        DemuxError::UnexpectedSectionSyntaxIndicator { table_id: 0x42, .. }
    ));
}

#[test]
fn framer_reports_section_too_large() {
    let mut framer = CompactSyntaxFramer::new(Pid::new(0), CompactSink);
    let mut errors = Errors::default();
    let pk = psi_packet(true, &[0, 0x42, 0x0f, 0xfe]);
    framer.consume(&mut errors, &Packet::new(&pk));
    assert!(matches!(
        errors.seen[0],
        DemuxError::PsiSectionTooLarge {
            length: 4094,
            limit: 4093,
            ..
        }
    ));
}

#[test]
fn framer_reports_short_section_data() {
    let mut framer = SectionSyntaxFramer::new(Pid::new(0), Sink { count: 0 });
    let mut errors = Errors::default();
    let pk = psi_packet(true, &[0, 0x42, 0x80, 0x04]);
    framer.consume(&mut errors, &Packet::new(&pk));
    assert!(matches!(
        errors.seen[0],
        DemuxError::SectionDataTooShort {
            actual: 7,
            minimum: 8,
            ..
        }
    ));
}

#[test]
fn framer_reports_pointer_out_of_bounds() {
    let mut framer = SectionSyntaxFramer::new(Pid::new(0), Sink { count: 0 });
    let mut errors = Errors::default();
    let pk = psi_packet(true, &[200]);
    framer.consume(&mut errors, &Packet::new(&pk));
    assert!(matches!(errors.seen[0], DemuxError::PsiPointerOutOfBounds { .. }));
}

#[test]
fn framer_reports_missing_payload() {
    let mut framer = SectionSyntaxFramer::new(Pid::new(0), Sink { count: 0 });
    let mut errors = Errors::default();
    let mut pk = [0u8; 188];
    pk[0] = 0x47;
    pk[3] = 0x20; // adaptation field only
    pk[4] = 183;
    framer.consume(&mut errors, &Packet::new(&pk));
    assert!(matches!(errors.seen[0], DemuxError::NoPayloadInPsiPacket { .. }));
}

#[test]
fn framer_reports_data_after_complete_section() {
    let mut framer = SectionSyntaxFramer::new(Pid::new(0), Sink { count: 0 });
    let mut errors = Errors::default();
    let first = psi_packet(true, &[0, 0x42, 0x80, 0x05, 1, 2, 3, 4, 5]);
    framer.consume(&mut errors, &Packet::new(&first));
    assert_eq!(framer.buffered_len(), 0);
    let second = psi_packet(false, &[1, 2, 3]);
    framer.consume(&mut errors, &Packet::new(&second));
    assert!(matches!(
        errors.seen.last(),
        Some(DemuxError::ExtraDataAfterSectionComplete { .. })
    ));
}

#[test]
fn crc_check_reports_failures() {
    let mut crc = CrcCheckWholeSectionSyntaxPayloadParser::new(Pid::new(0), Sink { count: 0 });
    let mut errors = Errors::default();
    let section = [0x42u8, 0x80, 0x09, 1, 2, 0xc1, 0, 0, 9, 9, 9, 9];
    let header = SectionCommonHeader::new(&section[..3]);
    let tsh = TableSyntaxHeader::new(&section[3..]);
    crc.section(&mut errors, &header, &tsh, &section);
    assert!(matches!(
        errors.seen[0],
        DemuxError::CrcCheckFailed { table_id: 0x42, .. }
    ));
    crc.section(&mut errors, &header, &tsh, &section[..11]);
    assert!(matches!(
        errors.seen[1],
        DemuxError::SectionTooSmallForCrc { actual: 11, .. }
    ));
}

#[test]
fn crc_check_passes_a_correct_section() {
    let mut crc = CrcCheckWholeSectionSyntaxPayloadParser::new(Pid::new(0), Sink { count: 0 });
    let mut errors = Errors::default();
    let section = hex::decode("00B00D0001C100000001E1E02D507804").unwrap();
    let header = SectionCommonHeader::new(&section[..3]);
    let tsh = TableSyntaxHeader::new(&section[3..]);
    crc.section(&mut errors, &header, &tsh, &section);
    assert!(errors.seen.is_empty());
}

#[test]
fn pmt_section_needs_fixed_fields() {
    let r = PmtSection::from_bytes(&[0, 1, 2]);
    assert!(matches!(
        r,
        Err(demultiplex::DemuxError::NotEnoughData {
            expected: 4,
            actual: 3,
            ..
        })
    ));
    let data = [0xe0u8, 0x7b, 0xf0, 0x00];
    let pmt = PmtSection::from_bytes(&data).unwrap();
    assert_eq!(pmt.pcr_pid(), Pid::new(123));
    assert_eq!(pmt.streams().len(), 0);
}

#[test]
fn adaptation_field_errors() {
    let mut buf = [0u8; 188];
    buf[0] = 0x47;
    buf[3] = 0x30; // adaptation field and payload
    buf[4] = 1; // adaptation_field_length
    buf[5] = 0x00; // no optional fields
    let pk = Packet::new(&buf);
    let af = pk.adaptation_field().unwrap();
    assert_eq!(af.pcr(), Err(AdaptationFieldError::FieldNotPresent));
    buf[5] = 0x10; // PCR flag, but no room for the PCR
    let pk = Packet::new(&buf);
    let af = pk.adaptation_field().unwrap();
    assert_eq!(af.pcr(), Err(AdaptationFieldError::NotEnoughData));
}

#[test]
fn pes_errors() {
    // PTS_DTS_flags of 0b01 is not a valid combination
    let data = [0u8, 0, 1, 0xe0, 0, 0, 0x80, 0x40, 0];
    let header = pes::PesHeader::from_bytes(&data).unwrap();
    match header.contents() {
        pes::PesContents::Parsed(Some(p)) => {
            assert_eq!(p.pts_dts(), Err(pes::PesError::PtsDtsFlagsInvalid));
            assert_eq!(p.escr(), Err(pes::PesError::FieldNotPresent));
        }
        _ => panic!("expected parsed contents"),
    }
}

#[test]
fn rejected_header_split_across_packets_is_reported_once() {
    // a compact-syntax section, which a section-syntax framer rejects
    let section = [0x42u8, 0x00, 0x05, 1, 2, 3, 4, 5];
    let expected = vec![DemuxError::UnexpectedSectionSyntaxIndicator {
        pid: Pid::new(0),
        table_id: 0x42,
    }];

    let mut whole = SectionSyntaxFramer::new(Pid::new(0), Sink { count: 0 });
    let mut whole_errors = Errors::default();
    let mut payload = vec![0u8];
    payload.extend_from_slice(&section);
    whole.consume(&mut whole_errors, &Packet::new(&psi_packet(true, &payload)));
    assert_eq!(whole_errors.seen, expected);

    // the same section with its header split after the first byte: the pointer field skips the
    // rest of the first packet's payload, which ends with the section's table_id
    let mut split = SectionSyntaxFramer::new(Pid::new(0), Sink { count: 0 });
    let mut split_errors = Errors::default();
    let mut first = vec![182u8];
    first.extend_from_slice(&[0xaa; 182]);
    first.push(section[0]);
    assert_eq!(first.len(), 184);
    split.consume(&mut split_errors, &Packet::new(&psi_packet(true, &first)));
    assert!(split_errors.seen.is_empty());
    split.consume(&mut split_errors, &Packet::new(&psi_packet(false, &section[1..])));
    assert_eq!(split_errors.seen, expected);
}
