use mpeg2ts_reader::demultiplex;
use mpeg2ts_reader::demultiplex::PacketFilter;
use mpeg2ts_reader::error::{DemuxError, ErrorSink};
use mpeg2ts_reader::packet;
use mpeg2ts_reader::pes;
use mpeg2ts_reader::psi;
use mpeg2ts_reader::psi::WholeSectionSyntaxPayloadParser;
use std::cell::RefCell;
use std::rc::Rc;

enum NullFilterSwitch {
    Pat(demultiplex::PatPacketFilter<NullDemuxContext>),
    Pmt(demultiplex::PmtPacketFilter<NullDemuxContext>),
    Nul(demultiplex::NullPacketFilter<NullDemuxContext>),
}

impl demultiplex::PacketFilter for NullFilterSwitch {
    type Ctx = NullDemuxContext;
    fn consume(&mut self, ctx: &mut NullDemuxContext, pk: &packet::Packet<'_>) {
        match self {
            NullFilterSwitch::Pat(f) => f.consume(ctx, pk),
            NullFilterSwitch::Pmt(f) => f.consume(ctx, pk),
            NullFilterSwitch::Nul(f) => f.consume(ctx, pk),
        }
    }
}

struct NullDemuxContext {
    changeset: demultiplex::FilterChangeset<NullFilterSwitch>,
    errors: Vec<DemuxError>,
    requests: Vec<String>,
}

impl NullDemuxContext {
    fn new() -> Self {
        NullDemuxContext {
            changeset: demultiplex::FilterChangeset::default(),
            errors: vec![],
            requests: vec![],
        }
    }
}

impl ErrorSink for NullDemuxContext {
    fn error(&mut self, error: DemuxError) {
        self.errors.push(error);
    }
}

impl demultiplex::DemuxContext for NullDemuxContext {
    type F = NullFilterSwitch;

    fn filter_changeset(&mut self) -> &mut demultiplex::FilterChangeset<Self::F> {
        &mut self.changeset
    }

    fn construct(&mut self, req: demultiplex::FilterRequest<'_, '_>) -> Self::F {
        match req {
            demultiplex::FilterRequest::ByPid(pid) if pid.as_u16() == psi::pat::PAT_PID => {
                self.requests.push("pat".to_string());
                NullFilterSwitch::Pat(demultiplex::PatPacketFilter::default())
            }
            demultiplex::FilterRequest::ByPid(pid) => {
                self.requests.push(format!("pid {}", pid.as_u16()));
                NullFilterSwitch::Nul(demultiplex::NullPacketFilter::default())
            }
            demultiplex::FilterRequest::ByStream {
                program_pid,
                stream_type,
                pmt,
                stream_info,
            } => {
                self.requests.push(format!(
                    "stream {} {} {} of {}",
                    program_pid.as_u16(),
                    stream_type.0,
                    stream_info.elementary_pid().as_u16(),
                    pmt.streams().len()
                ));
                NullFilterSwitch::Nul(demultiplex::NullPacketFilter::default())
            }
            demultiplex::FilterRequest::Pmt {
                pid,
                program_number,
            } => {
                self.requests
                    .push(format!("pmt {} {}", pid.as_u16(), program_number));
                NullFilterSwitch::Pmt(demultiplex::PmtPacketFilter::new(pid, program_number))
            }
            demultiplex::FilterRequest::Nit { pid } => {
                self.requests.push(format!("nit {}", pid.as_u16()));
                NullFilterSwitch::Nul(demultiplex::NullPacketFilter::default())
            }
        }
    }
}

fn unhex(s: &str) -> Vec<u8> {
    let cleaned: String = s.chars().filter(|c| !c.is_whitespace()).collect();
    hex::decode(cleaned).unwrap()
}

fn change_pids(ctx: NullDemuxContext) -> Vec<(bool, u16)> {
    let changes = ctx.changeset.into_updates();
    changes
        .into_iter()
        .map(|c| match c {
            demultiplex::FilterChange::Insert(pid, _) => (true, pid.as_u16()),
            demultiplex::FilterChange::Remove(pid) => (false, pid.as_u16()),
        })
        .collect()
}

#[test]
fn demux_empty() {
    let mut ctx = NullDemuxContext::new();
    let mut deplex = demultiplex::Demultiplex::new(&mut ctx);
    deplex.push(&mut ctx, &[0x0; 0][..]);
    assert_eq!(ctx.requests, vec!["pat".to_string()]);
}

#[test]
fn pat() {
    let mut buf = unhex("474000150000B00D0001C100000001E1E02D507804");
    buf.resize(188, 0xff);
    let mut ctx = NullDemuxContext::new();
    let mut deplex = demultiplex::Demultiplex::new(&mut ctx);
    deplex.push(&mut ctx, &buf[..]);
    // the PAT names program 1, whose PMT is on PID 0x1e0
    assert_eq!(
        ctx.requests,
        vec!["pat".to_string(), "pmt 480 1".to_string()]
    );
    assert!(ctx.changeset.is_empty());
}

#[test]
fn pat_no_existing_program() {
    let mut processor = demultiplex::PatProcessor::default();
    let section = vec![
        0, 0, 0, // common header
        0x0D, 0x00, 0b00000001, 0xC1, 0x00, // table syntax header
        0, 1, // program_number
        0, 101, // pid
        0, 0, 0, 0, // CRC (incorrect!)
    ];
    let header = psi::SectionCommonHeader::new(&section[..psi::SectionCommonHeader::SIZE]);
    let table_syntax_header = psi::TableSyntaxHeader::new(&section[psi::SectionCommonHeader::SIZE..]);
    let mut ctx = NullDemuxContext::new();
    processor.section(&mut ctx, &header, &table_syntax_header, &section[..]);
    let mut changes = ctx.changeset.into_updates().into_iter();
    if let Some(demultiplex::FilterChange::Insert(pid, _)) = changes.next() {
        assert_eq!(packet::Pid::new(101), pid);
    } else {
        panic!();
    }
}

#[test]
fn pat_remove_existing_program() {
    let mut ctx = NullDemuxContext::new();
    let mut processor = demultiplex::PatProcessor::default();
    {
        let section = vec![
            0, 0, 0, // common header
            0x0D, 0x00, 0b00000001, 0xC1, 0x00, // table syntax header
            0, 1, // program_number
            0, 101, // pid
            0, 0, 0, 0, // CRC (incorrect)
        ];
        let header = psi::SectionCommonHeader::new(&section[..psi::SectionCommonHeader::SIZE]);
        let table_syntax_header =
            psi::TableSyntaxHeader::new(&section[psi::SectionCommonHeader::SIZE..]);
        processor.section(&mut ctx, &header, &table_syntax_header, &section[..]);
    }
    ctx.changeset = demultiplex::FilterChangeset::default();
    {
        let section = vec![
            0, 0, 0, // common header
            0x0D, 0x00, 0b00000011, 0xC1, 0x00, // new version!
            0, 0, 0, 0, // CRC (incorrect)
        ];
        let header = psi::SectionCommonHeader::new(&section[..psi::SectionCommonHeader::SIZE]);
        let table_syntax_header =
            psi::TableSyntaxHeader::new(&section[psi::SectionCommonHeader::SIZE..]);
        processor.section(&mut ctx, &header, &table_syntax_header, &section[..]);
    }
    let mut changes = ctx.changeset.into_updates().into_iter();
    if let Some(demultiplex::FilterChange::Remove(pid)) = changes.next() {
        assert_eq!(packet::Pid::new(101), pid);
    } else {
        panic!();
    }
}

/// Writes values into a byte buffer, most significant bit first.
struct BitWriter {
    out: Vec<u8>,
    nbits: usize,
}

impl BitWriter {
    fn write(&mut self, bits: u32, value: u64) {
        for i in (0..bits).rev() {
            if self.nbits % 8 == 0 {
                self.out.push(0);
            }
            if (value >> i) & 1 == 1 {
                let last = self.out.len() - 1;
                self.out[last] |= 0x80 >> (self.nbits % 8);
            }
            self.nbits += 1;
        }
    }
    fn write_bit(&mut self, b: bool) {
        self.write(1, if b { 1 } else { 0 });
    }
}

#[test]
fn pmt_new_stream() {
    let pid = packet::Pid::new(101);
    let program_number = 1001;
    let mut processor = demultiplex::PmtProcessor::new(pid, program_number);
    let mut w = BitWriter {
        out: vec![],
        nbits: 0,
    };
    // common section header,
    w.write(8, 0x02); // table_id
    w.write_bit(true); // section_syntax_indicator
    w.write_bit(false); // private_indicator
    w.write(2, 3); // reserved
    w.write(12, 20); // section_length
    // section syntax header,
    w.write(16, 0); // id
    w.write(2, 3); // reserved
    w.write(5, 0); // version
    w.write(1, 1); // current_next_indicator
    w.write(8, 0); // section_number
    w.write(8, 0); // last_section_number
    // PMT section payload
    w.write(3, 7); // reserved
    w.write(13, 123); // pcr_pid
    w.write(4, 15); // reserved
    w.write(12, 0); // program_info_length
    w.write(8, 0); // stream_type
    w.write(3, 7); // reserved
    w.write(13, 201); // elementary_pid
    w.write(4, 15); // reserved
    w.write(12, 6); // es_info_length
    w.write(8, 0); // descriptor_tag
    w.write(8, 1); // descriptor_length
    w.write(8, 0); // made-up descriptor data
    w.write(8, 0); // descriptor_tag
    w.write(8, 1); // descriptor_length
    w.write(8, 0); // made-up descriptor data
    w.write(32, 0); // CRC (incorrect)
    let section = w.out;
    let header = psi::SectionCommonHeader::new(&section[..psi::SectionCommonHeader::SIZE]);
    let table_syntax_header = psi::TableSyntaxHeader::new(&section[psi::SectionCommonHeader::SIZE..]);
    let mut ctx = NullDemuxContext::new();
    processor.section(&mut ctx, &header, &table_syntax_header, &section[..]);
    let mut changes = ctx.changeset.into_updates().into_iter();
    if let Some(demultiplex::FilterChange::Insert(pid, _)) = changes.next() {
        assert_eq!(packet::Pid::new(201), pid);
    } else {
        panic!();
    }
}

#[test]
fn pmt_stream_requests_name_program_pid_and_each_stream() {
    let pid = packet::Pid::new(101);
    let mut processor = demultiplex::PmtProcessor::new(pid, 7);
    // two streams: H.264 on PID 201, ADTS on PID 202, no descriptors
    let section = unhex("02b017 0007c10000 e07bf000 1be0c9f000 0fe0caf000 00000000");
    let header = psi::SectionCommonHeader::new(&section[..psi::SectionCommonHeader::SIZE]);
    let table_syntax_header = psi::TableSyntaxHeader::new(&section[psi::SectionCommonHeader::SIZE..]);
    let mut ctx = NullDemuxContext::new();
    processor.section(&mut ctx, &header, &table_syntax_header, &section[..]);
    assert_eq!(
        ctx.requests,
        vec!["stream 101 27 201 of 2".to_string(), "stream 101 15 202 of 2".to_string()]
    );
    assert_eq!(change_pids(ctx), vec![(true, 201), (true, 202)]);
}

#[test]
fn filters_insert_get_remove() {
    let a = packet::Pid::new(0x100);
    let b = packet::Pid::new(0x1fff);
    let mut f: demultiplex::Filters<NullFilterSwitch> = demultiplex::Filters::default();
    assert!(!f.contains(a));
    assert!(f.get(a).is_none());
    f.insert(a, NullFilterSwitch::Nul(demultiplex::NullPacketFilter::default()));
    assert!(f.contains(a));
    assert!(!f.contains(b));
    assert!(matches!(f.get(a), Some(NullFilterSwitch::Nul(_))));
    // a second insertion for the same PID takes the place of the first
    f.insert(a, NullFilterSwitch::Pat(demultiplex::PatPacketFilter::default()));
    assert!(matches!(f.get(a), Some(NullFilterSwitch::Pat(_))));
    f.insert(b, NullFilterSwitch::Nul(demultiplex::NullPacketFilter::default()));
    f.remove(a);
    assert!(!f.contains(a));
    assert!(f.get(a).is_none());
    assert!(f.contains(b));
    assert!(matches!(f.get(b), Some(NullFilterSwitch::Nul(_))));
    // removing a PID beyond any registered is a no-op
    let mut g: demultiplex::Filters<NullFilterSwitch> = demultiplex::Filters::default();
    g.remove(b);
    assert!(!g.contains(b));
    assert!(g.get(b).is_none());
}

#[test]
fn pat_wrong_table_id_is_reported_and_ignored() {
    let mut processor = demultiplex::PatProcessor::default();
    let section = vec![
        0x42, 0, 0, 0x0D, 0x00, 0b00000001, 0xC1, 0x00, 0, 1, 0, 101, 0, 0, 0, 0,
    ];
    let header = psi::SectionCommonHeader::new(&section[..3]);
    let tsh = psi::TableSyntaxHeader::new(&section[3..]);
    let mut ctx = NullDemuxContext::new();
    processor.section(&mut ctx, &header, &tsh, &section[..]);
    assert!(ctx.changeset.is_empty());
    assert_eq!(ctx.errors.len(), 1);
    assert!(matches!(
        ctx.errors[0],
        DemuxError::InvalidTableId {
            expected: 0,
            actual: 0x42,
            ..
        }
    ));
}

#[test]
fn pat_entries_network_and_remove_in_order() {
    let mut processor = demultiplex::PatProcessor::default();
    let mut ctx = NullDemuxContext::new();
    let first = vec![
        0, 0, 0, 0x0D, 0x00, 0b00000001, 0xC1, 0x00, //
        0, 0, 0, 16, // network, pid 16
        0, 2, 0, 200, // program 2, pid 200
        0, 3, 0, 150, // program 3, pid 150
        0, 0, 0, 0,
    ];
    processor.section(
        &mut ctx,
        &psi::SectionCommonHeader::new(&first[..3]),
        &psi::TableSyntaxHeader::new(&first[3..]),
        &first[..],
    );
    assert_eq!(
        ctx.requests,
        vec!["nit 16".to_string(), "pmt 200 2".to_string(), "pmt 150 3".to_string()]
    );
    let mut ctx = NullDemuxContext::new();
    let second = vec![0, 0, 0, 0x0D, 0x00, 0b00000011, 0xC1, 0x00, 0, 3, 0, 150, 0, 0, 0, 0];
    processor.section(
        &mut ctx,
        &psi::SectionCommonHeader::new(&second[..3]),
        &psi::TableSyntaxHeader::new(&second[3..]),
        &second[..],
    );
    assert_eq!(
        change_pids(ctx),
        vec![(true, 150), (false, 16), (false, 200)]
    );
}

#[test]
fn pat_entry_too_short_is_reported() {
    let mut processor = demultiplex::PatProcessor::default();
    let mut ctx = NullDemuxContext::new();
    let section = vec![0, 0, 0, 0x0D, 0x00, 1, 0xC1, 0x00, 0, 1, 0, 101, 7, 7, 0, 0, 0, 0];
    processor.section(
        &mut ctx,
        &psi::SectionCommonHeader::new(&section[..3]),
        &psi::TableSyntaxHeader::new(&section[3..]),
        &section[..],
    );
    assert_eq!(change_pids(ctx), vec![(true, 101)]);
}

#[test]
fn pat_section_too_short_is_reported() {
    let mut processor = demultiplex::PatProcessor::default();
    let mut ctx = NullDemuxContext::new();
    let section = vec![0, 0, 0, 0x0D, 0x00, 1, 0xC1, 0x00, 0, 1];
    processor.section(
        &mut ctx,
        &psi::SectionCommonHeader::new(&section[..3]),
        &psi::TableSyntaxHeader::new(&section[3..]),
        &section[..],
    );
    assert!(matches!(
        ctx.errors[0],
        DemuxError::SectionDataTooShort {
            actual: 10,
            minimum: 12,
            ..
        }
    ));
    assert!(ctx.changeset.is_empty());
}

fn packet_bytes(pid: u16, tei: bool, scrambled: bool) -> [u8; 188] {
    let mut buf = [0xffu8; 188];
    buf[0] = 0x47;
    buf[1] = ((pid >> 8) as u8) & 0x1f;
    if tei {
        buf[1] |= 0x80;
    }
    buf[2] = pid as u8;
    buf[3] = 0x10;
    if scrambled {
        buf[3] |= 0x80;
    }
    buf
}

#[test]
fn demux_drops_error_and_scrambled_packets() {
    let mut ctx = NullDemuxContext::new();
    let mut deplex = demultiplex::Demultiplex::new(&mut ctx);
    let mut buf = vec![];
    buf.extend_from_slice(&packet_bytes(0x100, true, false));
    buf.extend_from_slice(&packet_bytes(0x101, false, true));
    buf.extend_from_slice(&packet_bytes(0x102, false, false));
    deplex.push(&mut ctx, &buf);
    assert_eq!(
        ctx.requests,
        vec![
            "pat".to_string(),
            "pid 256".to_string(),
            "pid 257".to_string(),
            "pid 258".to_string()
        ]
    );
    assert_eq!(ctx.errors.len(), 2);
    assert!(matches!(ctx.errors[0], DemuxError::TransportError { .. }));
    assert!(matches!(ctx.errors[1], DemuxError::ScrambledPacket { .. }));
}

#[test]
fn demux_stops_at_lost_sync() {
    let mut ctx = NullDemuxContext::new();
    let mut deplex = demultiplex::Demultiplex::new(&mut ctx);
    let mut buf = vec![];
    buf.extend_from_slice(&packet_bytes(0x100, false, false));
    let mut bad = packet_bytes(0x101, false, false);
    bad[0] = 0x00;
    buf.extend_from_slice(&bad);
    buf.extend_from_slice(&packet_bytes(0x102, false, false));
    deplex.push(&mut ctx, &buf);
    assert_eq!(ctx.requests, vec!["pat".to_string(), "pid 256".to_string()]);
}

#[test]
fn filter_changeset_queue() {
    let mut cs: demultiplex::FilterChangeset<NullFilterSwitch> = demultiplex::FilterChangeset::default();
    assert!(cs.is_empty());
    cs.insert(
        packet::Pid::new(7),
        NullFilterSwitch::Nul(demultiplex::NullPacketFilter::default()),
    );
    cs.remove(packet::Pid::new(8));
    assert!(!cs.is_empty());
    let ups = cs.into_updates();
    assert_eq!(ups.len(), 2);
    assert!(matches!(ups[0], demultiplex::FilterChange::Insert(p, _) if p.as_u16() == 7));
    assert!(matches!(ups[1], demultiplex::FilterChange::Remove(p) if p.as_u16() == 8));
}

struct MockState {
    start_stream_called: bool,
    begin_packet_called: bool,
    continuity_error_called: bool,
}

struct MockElementaryStreamConsumer {
    state: Rc<RefCell<MockState>>,
}

impl pes::ElementaryStreamConsumer<NullDemuxContext> for MockElementaryStreamConsumer {
    fn start_stream(&mut self, _ctx: &mut NullDemuxContext) {
        self.state.borrow_mut().start_stream_called = true;
    }
    fn begin_packet(&mut self, _ctx: &mut NullDemuxContext, _header: pes::PesHeader<'_>) {
        self.state.borrow_mut().begin_packet_called = true;
    }
    fn continue_packet(&mut self, _ctx: &mut NullDemuxContext, _data: &[u8]) {}
    fn end_packet(&mut self, _ctx: &mut NullDemuxContext) {}
    fn continuity_error(&mut self, _ctx: &mut NullDemuxContext) {
        self.state.borrow_mut().continuity_error_called = true;
    }
}

#[test]
fn pes_packet_consumer() {
    let state = Rc::new(RefCell::new(MockState {
        start_stream_called: false,
        begin_packet_called: false,
        continuity_error_called: false,
    }));
    let mock = MockElementaryStreamConsumer {
        state: state.clone(),
    };
    let mut pes_filter = pes::PesPacketFilter::new(mock);
    let buf = unhex("4741F510000001E0000084C00A355DDD11B1155DDBF5910000000109100000000167640029AD843FFFC21FFFE10FFFF087FFF843FFFC21FFFE10FFFFFFFFFFFFFFFF087FFFFFFFFFFFFFFF2CC501E0113F780A1010101F00000303E80000C350940000000168FF3CB0000001060001C006018401103A0408D2BA80000050204E95D400000302040AB500314454473141FEFF53040000C815540DF04F77FFFFFFFFFFFFFFFFFFFF80000000016588800005DB001008673FC365F48EAE");
    let pk = packet::Packet::new(&buf[..]);
    let mut ctx = NullDemuxContext::new();
    pes_filter.consume(&mut ctx, &pk);
    {
        let state = state.borrow();
        assert!(state.start_stream_called);
        assert!(state.begin_packet_called);
        assert!(!state.continuity_error_called);
    }
    let pk = packet::Packet::new(&buf[..]);
    pes_filter.consume(&mut ctx, &pk);
    {
        let state = state.borrow();
        assert!(state.continuity_error_called);
    }
}

#[test]
fn pes_discontinuity_before_start_skips_start_stream() {
    // two continuation packets with a gap in their continuity counters, then a packet
    // starting a PES packet: the stream is never started
    let state = Rc::new(RefCell::new(MockState {
        start_stream_called: false,
        begin_packet_called: false,
        continuity_error_called: false,
    }));
    let mut pes_filter = pes::PesPacketFilter::new(MockElementaryStreamConsumer {
        state: state.clone(),
    });
    let mut ctx = NullDemuxContext::new();
    let mut p1 = [0xffu8; 188];
    p1[0] = 0x47;
    p1[1] = 0x01;
    p1[2] = 0x00;
    p1[3] = 0x10;
    pes_filter.consume(&mut ctx, &packet::Packet::new(&p1));
    let mut p2 = p1;
    p2[3] = 0x15;
    pes_filter.consume(&mut ctx, &packet::Packet::new(&p2));
    assert!(state.borrow().continuity_error_called);
    let mut p3 = p2;
    p3[1] |= 0x40;
    p3[3] = 0x16;
    p3[4] = 0;
    p3[5] = 0;
    p3[6] = 1;
    pes_filter.consume(&mut ctx, &packet::Packet::new(&p3));
    assert!(!state.borrow().start_stream_called);
    assert!(state.borrow().begin_packet_called);
}

#[test]
fn demux_in_two_buffers_matches_one() {
    let mut pat = unhex("474000150000B00D0001C100000001E1E02D507804");
    pat.resize(188, 0xff);
    let mut all = pat.clone();
    all.extend_from_slice(&packet_bytes(0x100, false, false));

    let mut ctx_a = NullDemuxContext::new();
    let mut demux_a = demultiplex::Demultiplex::new(&mut ctx_a);
    demux_a.push(&mut ctx_a, &all);

    let mut ctx_b = NullDemuxContext::new();
    let mut demux_b = demultiplex::Demultiplex::new(&mut ctx_b);
    demux_b.push(&mut ctx_b, &all[..188]);
    demux_b.push(&mut ctx_b, &all[188..]);

    assert_eq!(ctx_a.requests, ctx_b.requests);
    assert_eq!(
        ctx_a.requests,
        vec!["pat".to_string(), "pmt 480 1".to_string(), "pid 256".to_string()]
    );
}

#[test]
fn same_pat_twice_removes_nothing() {
    let mut processor = demultiplex::PatProcessor::default();
    let first = vec![0, 0, 0, 0x0D, 0x00, 1, 0xC1, 0x00, 0, 1, 0, 101, 0, 0, 0, 0];
    let mut ctx = NullDemuxContext::new();
    processor.section(
        &mut ctx,
        &psi::SectionCommonHeader::new(&first[..3]),
        &psi::TableSyntaxHeader::new(&first[3..]),
        &first[..],
    );
    let mut ctx = NullDemuxContext::new();
    let second = vec![0, 0, 0, 0x0D, 0x00, 3, 0xC1, 0x00, 0, 1, 0, 101, 0, 0, 0, 0];
    processor.section(
        &mut ctx,
        &psi::SectionCommonHeader::new(&second[..3]),
        &psi::TableSyntaxHeader::new(&second[3..]),
        &second[..],
    );
    assert_eq!(change_pids(ctx), vec![(true, 101)]);
}

struct CountingConsumer {
    calls: Rc<RefCell<Vec<&'static str>>>,
}

impl pes::ElementaryStreamConsumer<NullDemuxContext> for CountingConsumer {
    fn start_stream(&mut self, _ctx: &mut NullDemuxContext) {
        self.calls.borrow_mut().push("start");
    }
    fn begin_packet(&mut self, _ctx: &mut NullDemuxContext, _header: pes::PesHeader<'_>) {
        self.calls.borrow_mut().push("begin");
    }
    fn continue_packet(&mut self, _ctx: &mut NullDemuxContext, _data: &[u8]) {
        self.calls.borrow_mut().push("continue");
    }
    fn end_packet(&mut self, _ctx: &mut NullDemuxContext) {
        self.calls.borrow_mut().push("end");
    }
    fn continuity_error(&mut self, _ctx: &mut NullDemuxContext) {
        self.calls.borrow_mut().push("error");
    }
}

fn pes_packet(pusi: bool, cc: u8) -> [u8; 188] {
    let mut p = [0x55u8; 188];
    p[0] = 0x47;
    p[1] = if pusi { 0x41 } else { 0x01 };
    p[2] = 0x00;
    p[3] = 0x10 | cc;
    if pusi {
        p[4] = 0;
        p[5] = 0;
        p[6] = 1;
        p[7] = 0xe0;
        p[8] = 0;
        p[9] = 0;
    }
    p
}

#[test]
fn start_stream_called_once_and_first() {
    let calls = Rc::new(RefCell::new(vec![]));
    let mut filter = pes::PesPacketFilter::new(CountingConsumer {
        calls: calls.clone(),
    });
    let mut ctx = NullDemuxContext::new();
    let packets = [
        pes_packet(true, 0),
        pes_packet(false, 1),
        pes_packet(true, 2),
        pes_packet(false, 3),
    ];
    for p in packets.iter() {
        filter.consume(&mut ctx, &packet::Packet::new(&p[..]));
    }
    assert_eq!(
        *calls.borrow(),
        vec!["start", "begin", "continue", "end", "begin", "continue"]
    );
}

#[test]
fn pat_filter_packet_builds_pmt_filter_once() {
    let mut buf = unhex("474000150000B00D0001C100000001E1E02D507804");
    buf.resize(188, 0xff);
    let mut filter: demultiplex::PatPacketFilter<NullDemuxContext> = Default::default();
    let mut ctx = NullDemuxContext::new();
    filter.consume(&mut ctx, &packet::Packet::new(&buf[..]));
    assert_eq!(ctx.requests, vec!["pmt 480 1".to_string()]);
    assert!(ctx.errors.is_empty());
    // the same version again is dropped before the processor sees it
    filter.consume(&mut ctx, &packet::Packet::new(&buf[..]));
    assert_eq!(ctx.requests, vec!["pmt 480 1".to_string()]);
    assert_eq!(change_pids(ctx), vec![(true, 480)]);
}

#[test]
fn pat_filter_packet_with_bad_crc_is_reported() {
    let mut buf = unhex("474000150000B00D0001C100000001E1E02D507805");
    buf.resize(188, 0xff);
    let mut filter: demultiplex::PatPacketFilter<NullDemuxContext> = Default::default();
    let mut ctx = NullDemuxContext::new();
    filter.consume(&mut ctx, &packet::Packet::new(&buf[..]));
    assert!(ctx.requests.is_empty());
    assert_eq!(ctx.errors.len(), 1);
    assert!(matches!(
        ctx.errors[0],
        DemuxError::CrcCheckFailed { table_id: 0, .. }
    ));
    assert!(ctx.changeset.is_empty());
}
