use mpeg2ts_reader::packet;
use mpeg2ts_reader::packet::Packet;
use mpeg2ts_reader::psi::{
    CompactSyntaxFramer, CrcCheckWholeSectionSyntaxPayloadParser, CurrentNext,
    DedupSectionSyntaxPayloadParser, SectionCommonHeader, SectionSyntaxFramer, TableSyntaxHeader,
    WholeCompactSyntaxPayloadParser, WholeSectionSyntaxPayloadParser, SECTION_LIMIT,
};
use std::cell::RefCell;
use std::rc::Rc;

fn unhex(s: &str) -> Vec<u8> {
    let cleaned: String = s.chars().filter(|c| !c.is_whitespace()).collect();
    hex::decode(cleaned).unwrap()
}

struct NullSyntaxSink;

impl WholeSectionSyntaxPayloadParser for NullSyntaxSink {
    type Context = ();
    fn section<'a>(
        &mut self,
        _ctx: &mut Self::Context,
        _header: &SectionCommonHeader,
        _table_syntax_header: &TableSyntaxHeader<'a>,
        _data: &'a [u8],
    ) {
    }
    fn reset(&mut self) {}
}

struct MockWholeSectParse {
    state: Rc<RefCell<bool>>,
}

impl WholeSectionSyntaxPayloadParser for MockWholeSectParse {
    type Context = ();
    fn section<'a>(
        &mut self,
        _: &mut Self::Context,
        _header: &SectionCommonHeader,
        _table_syntax_header: &TableSyntaxHeader<'a>,
        _data: &'a [u8],
    ) {
        *self.state.borrow_mut() = true;
    }
    fn reset(&mut self) {}
}

fn build_packet(pusi: bool, pid: u16, prefix: &[u8]) -> [u8; 188] {
    assert!(prefix.len() <= 184);
    let mut buf = [0xffu8; 188];
    buf[0] = 0x47;
    buf[1] = ((pid >> 8) & 0x1f) as u8;
    if pusi {
        buf[1] |= 0b0100_0000;
    }
    buf[2] = (pid & 0xff) as u8;
    buf[3] = 0b0001_0000;
    buf[4..4 + prefix.len()].copy_from_slice(prefix);
    buf
}

fn build_full_packet(pusi: bool, pid: u16, payload: &[u8]) -> [u8; 188] {
    assert_eq!(payload.len(), 184);
    let mut buf = [0u8; 188];
    buf[0] = 0x47;
    buf[1] = ((pid >> 8) & 0x1f) as u8;
    if pusi {
        buf[1] |= 0b0100_0000;
    }
    buf[2] = (pid & 0xff) as u8;
    buf[3] = 0b0001_0000;
    buf[4..188].copy_from_slice(payload);
    buf
}

fn make_syntax_section(table_id: u8, body_len: usize) -> Vec<u8> {
    let section_length = TableSyntaxHeader::SIZE + body_len;
    assert!(section_length <= SECTION_LIMIT);
    let mut out = Vec::with_capacity(SectionCommonHeader::SIZE + section_length);
    out.push(table_id);
    out.push(0b1000_0000 | ((section_length >> 8) as u8 & 0x0f));
    out.push(section_length as u8);
    out.extend_from_slice(&[0x12, 0x34, 0b1100_0001, 0x00, 0x00]);
    for i in 0..body_len {
        out.push(i as u8);
    }
    out
}

fn make_compact_section(table_id: u8, body_len: usize) -> Vec<u8> {
    assert!(body_len <= SECTION_LIMIT);
    let mut out = Vec::with_capacity(SectionCommonHeader::SIZE + body_len);
    out.push(table_id);
    out.push(((body_len >> 8) as u8) & 0x0f);
    out.push(body_len as u8);
    for i in 0..body_len {
        out.push((i ^ 0x55) as u8);
    }
    out
}

struct SyntaxSink {
    sections: Rc<RefCell<Vec<Vec<u8>>>>,
}

impl WholeSectionSyntaxPayloadParser for SyntaxSink {
    type Context = ();
    fn section<'a>(
        &mut self,
        _ctx: &mut Self::Context,
        _header: &SectionCommonHeader,
        _table_syntax_header: &TableSyntaxHeader<'a>,
        data: &'a [u8],
    ) {
        self.sections.borrow_mut().push(data.to_vec());
    }
    fn reset(&mut self) {}
}

struct CompactSink {
    sections: Rc<RefCell<Vec<Vec<u8>>>>,
}

impl WholeCompactSyntaxPayloadParser for CompactSink {
    type Context = ();
    fn section(&mut self, _ctx: &mut Self::Context, _header: &SectionCommonHeader, data: &[u8]) {
        self.sections.borrow_mut().push(data.to_vec());
    }
    fn reset(&mut self) {}
}

#[allow(clippy::type_complexity)]
fn syntax_framer() -> (SectionSyntaxFramer<SyntaxSink>, Rc<RefCell<Vec<Vec<u8>>>>) {
    let sink_out = Rc::new(RefCell::new(vec![]));
    let framer = SectionSyntaxFramer::new(
        packet::Pid::new(0),
        SyntaxSink {
            sections: sink_out.clone(),
        },
    );
    (framer, sink_out)
}

#[allow(clippy::type_complexity)]
fn compact_framer() -> (CompactSyntaxFramer<CompactSink>, Rc<RefCell<Vec<Vec<u8>>>>) {
    let sink_out = Rc::new(RefCell::new(vec![]));
    let framer = CompactSyntaxFramer::new(
        packet::Pid::new(0),
        CompactSink {
            sections: sink_out.clone(),
        },
    );
    (framer, sink_out)
}

#[test]
fn psi_continuation_outside_section() {
    let mut buf = [0u8; 188];
    buf[0] = 0x47;
    buf[3] |= 0b00010000; // PayloadOnly
    let pk = Packet::new(&buf[..]);
    let mut framer = SectionSyntaxFramer::new(packet::Pid::new(0), NullSyntaxSink);
    framer.consume(&mut (), &pk);
    assert_eq!(framer.buffered_len(), 0);
}

#[test]
fn psi_small_section() {
    let mut buf = [0u8; 188];
    buf[0] = 0x47;
    buf[1] |= 0b01000000; // payload_unit_start_indicator
    buf[3] |= 0b00010000; // PayloadOnly
    buf[7] = 3; // section_length
    let pk = Packet::new(&buf[..]);
    let mut framer = SectionSyntaxFramer::new(packet::Pid::new(0), NullSyntaxSink);
    framer.consume(&mut (), &pk);
    assert_eq!(framer.buffered_len(), 0);
}

#[test]
fn mod_continuation_outside_section() {
    let mut buf = [0u8; 188];
    buf[0] = 0x47;
    buf[3] |= 0b00010000; // PayloadOnly
    let pk = Packet::new(&buf[..]);
    let mut framer = SectionSyntaxFramer::new(packet::Pid::new(0), NullSyntaxSink);
    framer.consume(&mut (), &pk);
}

#[test]
fn mod_small_section() {
    let mut buf = [0u8; 188];
    buf[0] = 0x47;
    buf[1] |= 0b01000000; // payload_unit_start_indicator
    buf[3] |= 0b00010000; // PayloadOnly
    buf[6] = 0b1000_0000; // section_syntax_indicator = 1, section_length high = 0
    buf[7] = 3; // section_length low = 3
    let pk = Packet::new(&buf[..]);
    let mut framer = SectionSyntaxFramer::new(packet::Pid::new(0), NullSyntaxSink);
    framer.consume(&mut (), &pk);
}

#[test]
fn section_spanning_packets() {
    let (mut framer, sink) = syntax_framer();
    let section = make_syntax_section(0x42, 300);
    let mut first = vec![0u8];
    first.extend_from_slice(&section[..183]);
    let pkt1 = build_full_packet(true, 0, &first);
    framer.consume(&mut (), &Packet::new(&pkt1));
    assert_eq!(sink.borrow().len(), 0);
    let pkt2 = build_packet(false, 0, &section[183..]);
    framer.consume(&mut (), &Packet::new(&pkt2));
    assert_eq!(sink.borrow().len(), 1);
    assert_eq!(&sink.borrow()[0], &section);
}

#[test]
fn framer_zero_copy_single_packet() {
    let (mut framer, sink) = syntax_framer();
    let section = make_syntax_section(0x42, 16);
    let mut payload = vec![0u8];
    payload.extend_from_slice(&section);
    let pkt = build_packet(true, 0, &payload);
    framer.consume(&mut (), &Packet::new(&pkt));
    assert_eq!(sink.borrow().len(), 1);
    assert_eq!(&sink.borrow()[0], &section);
    assert_eq!(framer.buffered_len(), 0);
}

#[test]
fn framer_section_spanning_three_packets() {
    let (mut framer, sink) = syntax_framer();
    let section = make_syntax_section(0x42, 500);
    let mut first = vec![0u8];
    first.extend_from_slice(&section[..183]);
    framer.consume(&mut (), &Packet::new(&build_full_packet(true, 0, &first)));
    framer.consume(
        &mut (),
        &Packet::new(&build_full_packet(false, 0, &section[183..183 + 184])),
    );
    assert_eq!(sink.borrow().len(), 0);
    framer.consume(
        &mut (),
        &Packet::new(&build_packet(false, 0, &section[183 + 184..])),
    );
    assert_eq!(sink.borrow().len(), 1);
    assert_eq!(&sink.borrow()[0], &section);
}

#[test]
fn framer_header_split_after_one_byte() {
    let (mut framer, sink) = syntax_framer();
    let sec_a = make_syntax_section(0x42, 174);
    let sec_b = make_syntax_section(0x43, 16);
    let mut first = vec![0u8];
    first.extend_from_slice(&sec_a);
    first.extend_from_slice(&sec_b[..1]);
    framer.consume(&mut (), &Packet::new(&build_full_packet(true, 0, &first)));
    assert_eq!(sink.borrow().len(), 1);
    framer.consume(&mut (), &Packet::new(&build_packet(false, 0, &sec_b[1..])));
    assert_eq!(sink.borrow().len(), 2);
    assert_eq!(&sink.borrow()[0], &sec_a);
    assert_eq!(&sink.borrow()[1], &sec_b);
}

#[test]
fn framer_header_split_after_three_bytes() {
    let (mut framer, sink) = syntax_framer();
    let sec_a = make_syntax_section(0x42, 172);
    let sec_b = make_syntax_section(0x43, 16);
    let mut first = vec![0u8];
    first.extend_from_slice(&sec_a);
    first.extend_from_slice(&sec_b[..3]);
    framer.consume(&mut (), &Packet::new(&build_full_packet(true, 0, &first)));
    assert_eq!(sink.borrow().len(), 1);
    framer.consume(&mut (), &Packet::new(&build_packet(false, 0, &sec_b[3..])));
    assert_eq!(sink.borrow().len(), 2);
    assert_eq!(&sink.borrow()[0], &sec_a);
    assert_eq!(&sink.borrow()[1], &sec_b);
}

#[test]
fn framer_multi_section_single_packet() {
    let (mut framer, sink) = syntax_framer();
    let sec_a = make_syntax_section(0x42, 8);
    let sec_b = make_syntax_section(0x43, 10);
    let mut payload = vec![0u8];
    payload.extend_from_slice(&sec_a);
    payload.extend_from_slice(&sec_b);
    framer.consume(&mut (), &Packet::new(&build_packet(true, 0, &payload)));
    assert_eq!(sink.borrow().len(), 2);
    assert_eq!(&sink.borrow()[0], &sec_a);
    assert_eq!(&sink.borrow()[1], &sec_b);
}

#[test]
fn framer_multi_section_with_spill() {
    let (mut framer, sink) = syntax_framer();
    let sec_a = make_syntax_section(0x42, 8);
    let sec_b = make_syntax_section(0x43, 300);
    let mut first = vec![0u8];
    first.extend_from_slice(&sec_a);
    let space_left = 184 - first.len();
    first.extend_from_slice(&sec_b[..space_left]);
    framer.consume(&mut (), &Packet::new(&build_packet(true, 0, &first)));
    assert_eq!(sink.borrow().len(), 1);
    framer.consume(
        &mut (),
        &Packet::new(&build_packet(false, 0, &sec_b[space_left..])),
    );
    assert_eq!(sink.borrow().len(), 2);
    assert_eq!(&sink.borrow()[0], &sec_a);
    assert_eq!(&sink.borrow()[1], &sec_b);
}

#[test]
fn framer_stuffing_terminator_after_section() {
    let (mut framer, sink) = syntax_framer();
    let section = make_syntax_section(0x42, 8);
    let mut payload = vec![0u8];
    payload.extend_from_slice(&section);
    payload.extend_from_slice(&[0xff; 4]);
    framer.consume(&mut (), &Packet::new(&build_packet(true, 0, &payload)));
    assert_eq!(sink.borrow().len(), 1);
    assert_eq!(&sink.borrow()[0], &section);
}

#[test]
fn framer_stuffing_only() {
    let (mut framer, sink) = syntax_framer();
    let payload = vec![0u8, 0xff, 0xff, 0xff, 0xff];
    framer.consume(&mut (), &Packet::new(&build_packet(true, 0, &payload)));
    assert_eq!(sink.borrow().len(), 0);
}

#[test]
fn framer_drops_pre_pointer_until_synced() {
    let (mut framer, sink) = syntax_framer();
    let sec_b = make_syntax_section(0x42, 16);
    let pre_pointer = [0x33u8, 0x36, 0x38, 0x32, 0x30, 0x37, 0x1b, 0x58, 0x56, 0x36];
    let mut payload = vec![pre_pointer.len() as u8];
    payload.extend_from_slice(&pre_pointer);
    payload.extend_from_slice(&sec_b);
    framer.consume(&mut (), &Packet::new(&build_packet(true, 0, &payload)));
    assert_eq!(sink.borrow().len(), 1);
    assert_eq!(&sink.borrow()[0], &sec_b);
}

#[test]
fn framer_drops_continuation_packets_until_synced() {
    let (mut framer, sink) = syntax_framer();
    let payload = vec![0x12u8; 100];
    framer.consume(&mut (), &Packet::new(&build_packet(false, 0, &payload)));
    assert_eq!(sink.borrow().len(), 0);
    let section = make_syntax_section(0x42, 16);
    let mut full = vec![0u8];
    full.extend_from_slice(&section);
    framer.consume(&mut (), &Packet::new(&build_packet(true, 0, &full)));
    assert_eq!(sink.borrow().len(), 1);
    assert_eq!(&sink.borrow()[0], &section);
}

#[test]
fn framer_pointer_field_splits_sections() {
    let (mut framer, sink) = syntax_framer();
    let sec_a = make_syntax_section(0x42, 300);
    let mut first = vec![0u8];
    first.extend_from_slice(&sec_a[..183]);
    framer.consume(&mut (), &Packet::new(&build_full_packet(true, 0, &first)));
    let tail_len = sec_a.len() - 183;
    let sec_b = make_syntax_section(0x43, 10);
    let mut second = vec![tail_len as u8];
    second.extend_from_slice(&sec_a[183..]);
    second.extend_from_slice(&sec_b);
    framer.consume(&mut (), &Packet::new(&build_packet(true, 0, &second)));
    assert_eq!(sink.borrow().len(), 2);
    assert_eq!(&sink.borrow()[0], &sec_a);
    assert_eq!(&sink.borrow()[1], &sec_b);
}

#[test]
fn framer_rejects_wrong_syntax_indicator() {
    let (mut framer, sink) = syntax_framer();
    let mut section = make_syntax_section(0x42, 16);
    section[1] &= 0b0111_1111;
    let mut payload = vec![0u8];
    payload.extend_from_slice(&section);
    framer.consume(&mut (), &Packet::new(&build_packet(true, 0, &payload)));
    assert_eq!(sink.borrow().len(), 0);
}

#[test]
fn framer_rejects_oversize_section() {
    let (mut framer, sink) = syntax_framer();
    let payload = vec![0u8, 0x42, 0x8f, 0xfe];
    framer.consume(&mut (), &Packet::new(&build_packet(true, 0, &payload)));
    assert_eq!(sink.borrow().len(), 0);
}

#[test]
fn framer_compact_single_packet() {
    let (mut framer, sink) = compact_framer();
    let section = make_compact_section(0x72, 16);
    let mut payload = vec![0u8];
    payload.extend_from_slice(&section);
    framer.consume(&mut (), &Packet::new(&build_packet(true, 0, &payload)));
    assert_eq!(sink.borrow().len(), 1);
    assert_eq!(&sink.borrow()[0], &section);
}

#[test]
fn framer_compact_spanning_packets() {
    let (mut framer, sink) = compact_framer();
    let section = make_compact_section(0x72, 300);
    let mut first = vec![0u8];
    first.extend_from_slice(&section[..183]);
    framer.consume(&mut (), &Packet::new(&build_full_packet(true, 0, &first)));
    framer.consume(
        &mut (),
        &Packet::new(&build_packet(false, 0, &section[183..])),
    );
    assert_eq!(sink.borrow().len(), 1);
    assert_eq!(&sink.borrow()[0], &section);
}

#[test]
fn framer_compact_zero_length_header_split() {
    let (mut framer, sink) = compact_framer();
    let mut buf1 = [0u8; 188];
    buf1[0] = 0x47;
    buf1[1] = 0b0100_0000;
    buf1[2] = 0;
    buf1[3] = 0b0011_0000;
    buf1[4] = 180;
    buf1[5] = 0;
    buf1[185] = 0x00;
    buf1[186] = 0x72;
    buf1[187] = 0x00;
    framer.consume(&mut (), &Packet::new(&buf1[..]));
    assert_eq!(sink.borrow().len(), 0);
    let mut payload = [0xffu8; 184];
    payload[0] = 0x00;
    let pkt2 = build_full_packet(false, 0, &payload);
    framer.consume(&mut (), &Packet::new(&pkt2));
    assert_eq!(sink.borrow().len(), 1);
    assert_eq!(sink.borrow()[0], vec![0x72, 0x00, 0x00]);
}

#[test]
fn framer_pre_pointer_ignored_when_idle() {
    let (mut framer, sink) = compact_framer();
    let section_a = make_compact_section(0x70, 8);
    let mut payload1 = vec![0u8];
    payload1.extend_from_slice(&section_a);
    framer.consume(&mut (), &Packet::new(&build_packet(true, 0, &payload1)));
    assert_eq!(sink.borrow().len(), 1);
    let section_b = make_compact_section(0x71, 4);
    let mut payload2 = vec![3u8, 0x7e, 0x00, 0x00];
    payload2.extend_from_slice(&section_b);
    framer.consume(&mut (), &Packet::new(&build_packet(true, 0, &payload2)));
    assert_eq!(sink.borrow().len(), 2);
    assert_eq!(sink.borrow()[0], section_a);
    assert_eq!(sink.borrow()[1], section_b);
}

#[test]
fn table_syntax() {
    let sect = unhex("4084e90000");
    let header = TableSyntaxHeader::new(&sect);
    assert_eq!(header.current_next_indicator(), CurrentNext::Current);
    assert_eq!(header.id(), 16516);
    assert_eq!(header.section_number(), 0);
    assert_eq!(header.last_section_number(), 0);
    assert_eq!(header.version(), 20);
    assert!(!format!("{:?}", header).is_empty());
}

#[test]
fn table_next_syntax() {
    let sect = unhex("4084e80000");
    let header = TableSyntaxHeader::new(&sect);
    assert_eq!(header.current_next_indicator(), CurrentNext::Next);
}

struct CallCounts {
    section: usize,
    reset: usize,
}

struct CountingMock {
    inner: Rc<RefCell<CallCounts>>,
}

impl WholeSectionSyntaxPayloadParser for CountingMock {
    type Context = ();

    fn section<'a>(
        &mut self,
        _ctx: &mut Self::Context,
        _header: &SectionCommonHeader,
        _table_syntax_header: &TableSyntaxHeader<'a>,
        _data: &'a [u8],
    ) {
        self.inner.borrow_mut().section += 1;
    }

    fn reset(&mut self) {
        self.inner.borrow_mut().reset += 1;
    }
}

#[test]
fn dedup_section() {
    let counts = Rc::new(RefCell::new(CallCounts {
        section: 0,
        reset: 0,
    }));
    let mut dedup = DedupSectionSyntaxPayloadParser::new(CountingMock {
        inner: counts.clone(),
    });

    let sect = unhex("42f130 4084e90000");

    let common_header = SectionCommonHeader::new(&sect[..SectionCommonHeader::SIZE]);
    let table_header = TableSyntaxHeader::new(&sect[SectionCommonHeader::SIZE..]);
    assert_eq!(table_header.version(), 20);

    let ctx = &mut ();
    dedup.section(ctx, &common_header, &table_header, &sect);
    assert_eq!(counts.borrow().section, 1);
    dedup.section(ctx, &common_header, &table_header, &sect);
    assert_eq!(counts.borrow().section, 1);

    let sect = unhex("42f131 4084ea0000");
    let common_header = SectionCommonHeader::new(&sect[..SectionCommonHeader::SIZE]);
    let table_header = TableSyntaxHeader::new(&sect[SectionCommonHeader::SIZE..]);
    assert_eq!(table_header.version(), 21);

    dedup.section(ctx, &common_header, &table_header, &sect);
    assert_eq!(counts.borrow().section, 2);

    assert_eq!(counts.borrow().reset, 0);
    dedup.reset();
    assert_eq!(counts.borrow().reset, 1);

    dedup.section(ctx, &common_header, &table_header, &sect);
    assert_eq!(counts.borrow().section, 3);
}

#[test]
fn framer_compact_validation_rejections() {
    let (mut framer, sink) = compact_framer();
    let mut payload = vec![0u8];
    payload.extend_from_slice(&unhex("42f131"));
    framer.consume(&mut (), &Packet::new(&build_packet(true, 0, &payload)));
    assert_eq!(sink.borrow().len(), 0);

    let (mut framer, sink) = compact_framer();
    let payload = vec![0u8, 0x42, 0x0f, 0xfe];
    framer.consume(&mut (), &Packet::new(&build_packet(true, 0, &payload)));
    assert_eq!(sink.borrow().len(), 0);

    let (mut framer, sink) = compact_framer();
    let payload = vec![0u8, 0x42, 0x70, 0x00];
    framer.consume(&mut (), &Packet::new(&build_packet(true, 0, &payload)));
    assert_eq!(sink.borrow().len(), 1);
}

#[test]
fn framer_compact_reset_mid_section() {
    let (mut framer, sink) = compact_framer();
    let big = make_compact_section(0x70, 300);
    let mut partial = vec![0u8];
    partial.extend_from_slice(&big[..183]);
    framer.consume(&mut (), &Packet::new(&build_full_packet(true, 0, &partial)));
    assert_eq!(sink.borrow().len(), 0);
    framer.reset();
    assert_eq!(sink.borrow().len(), 0);
    let small = make_compact_section(0x71, 4);
    let mut full = vec![0u8];
    full.extend_from_slice(&small);
    framer.consume(&mut (), &Packet::new(&build_packet(true, 0, &full)));
    assert_eq!(sink.borrow().len(), 1);
    assert_eq!(&sink.borrow()[0], &small);
}

#[test]
fn framer_syntax_validation_rejections() {
    {
        let (mut framer, sink) = syntax_framer();
        let mut section = make_syntax_section(0x42, 16);
        section[1] &= 0b0111_1111;
        let mut payload = vec![0u8];
        payload.extend_from_slice(&section);
        framer.consume(&mut (), &Packet::new(&build_packet(true, 0, &payload)));
        assert_eq!(sink.borrow().len(), 0);
    }
    {
        let (mut framer, sink) = syntax_framer();
        let payload = vec![0u8, 0x42, 0x80, 0x04];
        framer.consume(&mut (), &Packet::new(&build_packet(true, 0, &payload)));
        assert_eq!(sink.borrow().len(), 0);
    }
    {
        let (mut framer, sink) = syntax_framer();
        let payload = vec![0u8, 0x42, 0x8f, 0xfe];
        framer.consume(&mut (), &Packet::new(&build_packet(true, 0, &payload)));
        assert_eq!(sink.borrow().len(), 0);
    }
}

#[test]
fn should_reject_section_too_small_for_crc() {
    let sect = unhex(
        "
        42f13040 84e90000 233aff44 40ff8026
        480d1900 0a424243 2054574f 20484473
        0c66702e 6262632e 636f2e75 6b5f0400
        00233a7e 01f744c4 ff802148 09190006
        49545620 4844730b 7777772e 6974762e
        636f6d5f 04000023 3a7e01f7 4500ff80
        2c480f19 000c4368 616e6e65 6c203420
        48447310 7777772e 6368616e 6e656c34
        2e636f6d 5f040000 233a7e01 f74484ff
        8026480d 19000a42 4243204f 4e452048
        44730c66 702e6262 632e636f 2e756b5f
        04000023 3a7e01
        f746c0ff 8023480a 19000743 42424320
        4844730c 66702e62 62632e63 6f2e756b
        5f040000 233a7e01 f74f80ff 801e480a
        16000746 696c6d34 2b317310 7777772e
        6368616e 6e656c34 2e636f6d 4540ff80
        27480f19 000c4368 616e6e65 6c203520
        4844730b 7777772e 66697665 2e74765f
        04000023 3a7e01f7 f28b26c4 ffffffff
        ffffffff ffffffff ffffffff ffffffff
        ffffffff ffffffff ffffffff ffffffff
        ffffffff ffffffff ffffffff ffffffff
        ffffffff ffffffff",
    );

    let mut sect_length_too_small = sect.to_vec();
    let bad_section_length: u16 = 11;
    assert_eq!(bad_section_length >> 8 & 0b1111_0000, 0);
    sect_length_too_small[1] =
        sect_length_too_small[1] & 0b1111_0000 | (bad_section_length >> 8) as u8;
    sect_length_too_small[2] = (bad_section_length & 0xff) as u8;
    sect_length_too_small.truncate(bad_section_length as usize);
    let state = Rc::new(RefCell::new(false));
    let mut crc_check = CrcCheckWholeSectionSyntaxPayloadParser::new(
        packet::Pid::new(0),
        MockWholeSectParse {
            state: state.clone(),
        },
    );
    let common_header =
        SectionCommonHeader::new(&sect_length_too_small[..SectionCommonHeader::SIZE]);
    let table_header = TableSyntaxHeader::new(&sect_length_too_small[SectionCommonHeader::SIZE..]);
    let ctx = &mut ();
    crc_check.section(ctx, &common_header, &table_header, &sect_length_too_small);
    assert!(!*state.borrow());
}
