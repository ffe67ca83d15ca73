use mpeg2ts_reader::packet;
use mpeg2ts_reader::unpacketise;
use std::cell::RefCell;
use std::rc::Rc;

struct MockPacketConsumer {
    pub pids: Rc<RefCell<Vec<u16>>>,
}

impl packet::PacketConsumer<()> for MockPacketConsumer {
    fn consume(&mut self, pk: packet::Packet<'_>) -> Option<()> {
        self.pids.borrow_mut().push(pk.pid().as_u16());
        None
    }
}

struct NullPacketConsumer {}

impl packet::PacketConsumer<()> for NullPacketConsumer {
    fn consume(&mut self, _: packet::Packet<'_>) -> Option<()> {
        None
    }
}

#[test]
fn unpacketise() {
    let pids = Rc::new(RefCell::new(vec![]));
    let mock = MockPacketConsumer { pids: pids.clone() };
    let mut buf = [0u8; 188 * 2];
    buf[0] = 0x47;
    buf[2] = 0x07;
    buf[188] = 0x47;
    buf[190] = 0x09;
    let mut unpack = unpacketise::Unpacketise::new(mock);
    unpack.push(&buf[..]);
    assert_eq!(*pids.borrow_mut(), vec!(0x07u16, 0x09u16));
}

#[test]
fn empty() {
    let null = NullPacketConsumer {};
    let mut unpack = unpacketise::Unpacketise::new(null);
    let buf = [0u8; 0];
    unpack.push(&buf[..]);
}

#[test]
fn byte() {
    let null = NullPacketConsumer {};
    let mut unpack = unpacketise::Unpacketise::new(null);
    let buf = [0x0Au8; 1];
    unpack.push(&buf[..]);
}

#[test]
fn unpacketise_skips_unsynchronised_and_partial_packets() {
    let pids = Rc::new(RefCell::new(vec![]));
    let mock = MockPacketConsumer { pids: pids.clone() };
    let mut buf = [0u8; 188 * 3 + 10];
    buf[0] = 0x47;
    buf[2] = 0x07;
    buf[188] = 0x46; // not a sync byte: skipped
    buf[190] = 0x08;
    buf[376] = 0x47;
    buf[378] = 0x09;
    buf[564] = 0x47; // partial trailing packet: ignored
    let mut unpack = unpacketise::Unpacketise::new(mock);
    unpack.push(&buf[..]);
    assert_eq!(*pids.borrow_mut(), vec!(0x07u16, 0x09u16));
}

#[test]
fn unpacketise_in_two_buffers_matches_one() {
    let mut buf = [0u8; 188 * 3];
    for (i, pid) in [3u8, 4, 5].iter().enumerate() {
        buf[188 * i] = 0x47;
        buf[188 * i + 2] = *pid;
    }
    let whole = Rc::new(RefCell::new(vec![]));
    let mut unpack = unpacketise::Unpacketise::new(MockPacketConsumer { pids: whole.clone() });
    unpack.push(&buf[..]);
    let split = Rc::new(RefCell::new(vec![]));
    let mut unpack = unpacketise::Unpacketise::new(MockPacketConsumer { pids: split.clone() });
    unpack.push(&buf[..188]);
    unpack.push(&buf[188..]);
    assert_eq!(*whole.borrow(), *split.borrow());
    assert_eq!(*whole.borrow(), vec![3u16, 4, 5]);
}
