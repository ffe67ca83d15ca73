//! Splitting a buffer of transport stream data into packets.
use crate::packet;
use vstd::prelude::*;

verus! {

const PACKET_SIZE: usize = 188;

/// The packets that [`Unpacketise::push()`] hands to its consumer from the buffer `buf`, in
/// order: `buf` is taken 188 bytes at a time, a piece that does not start with the sync byte is
/// skipped, and any bytes after the last whole packet are ignored.
pub open spec fn unpacketised(buf: Seq<u8>) -> Seq<Seq<u8>>
    decreases buf.len(),
{
    if buf.len() < 188 {
        Seq::empty()
    } else {
        let rest = unpacketised(buf.subrange(188, buf.len() as int));
        if buf[0] == 0x47 {
            seq![buf.subrange(0, 188)] + rest
        } else {
            rest
        }
    }
}

/// `true` when the consumer `c0` becomes `c1` by handling the packets `pks` one after another,
/// each as its [`PacketConsumer::consume()`](packet::PacketConsumer::consume) does.
pub open spec fn packets_consumed<C: packet::PacketConsumer<()>>(c0: C, pks: Seq<Seq<u8>>, c1: C) -> bool
    decreases pks.len(),
{
    if pks.len() == 0 {
        c1 == c0
    } else {
        exists|c: C, r: Option<()>|
            #![trigger c.consume_effect(pks.last(), &c1, r)]
            packets_consumed(c0, pks.drop_last(), c) && c.consume_effect(pks.last(), &c1, r)
    }
}

/// Handling the packets `p` and then the packets `q` is handling `p + q`.
pub proof fn lemma_packets_consumed_concat<C: packet::PacketConsumer<()>>(c0: C, p: Seq<Seq<u8>>, c1: C, q: Seq<Seq<u8>>, c2: C)
    requires
        packets_consumed(c0, p, c1),
        packets_consumed(c1, q, c2),
    ensures
        packets_consumed(c0, p + q, c2),
    decreases q.len(),
{
    if q.len() == 0 {
        assert(p + q =~= p);
    } else {
        let (c, r) = choose|c: C, r: Option<()>|
            #![trigger c.consume_effect(q.last(), &c2, r)]
            packets_consumed(c1, q.drop_last(), c) && c.consume_effect(q.last(), &c2, r);
        lemma_packets_consumed_concat(c0, p, c1, q.drop_last(), c);
        assert((p + q).drop_last() =~= p + q.drop_last());
        assert((p + q).last() == q.last());
    }
}

/// Splits buffers of transport stream data into packets, passing each to a
/// [`PacketConsumer`](packet::PacketConsumer).
pub struct Unpacketise<C> where C: packet::PacketConsumer<()> {
    consumer: C,
    consumed: Ghost<Seq<Seq<u8>>>,
}

impl<C> Unpacketise<C> where C: packet::PacketConsumer<()> {
    /// The packets handed to the consumer so far, in order.
    pub closed spec fn consumed(&self) -> Seq<Seq<u8>> {
        self.consumed@
    }

    /// The wrapped consumer.
    pub closed spec fn consumer(&self) -> C {
        self.consumer
    }

    /// Wraps the given consumer.
    pub fn new(consumer: C) -> (r: Unpacketise<C>)
        ensures
            r.consumed() == Seq::<Seq<u8>>::empty(),
            r.consumer() == consumer,
    {
        Unpacketise { consumer, consumed: Ghost(Seq::empty()) }
    }

    /// Hands each whole packet of the buffer that starts with the sync byte to the consumer, in
    /// order, as [`unpacketised`] describes.
    pub fn push(&mut self, buf: &[u8])
        ensures
            final(self).consumed() == old(self).consumed() + unpacketised(buf@),
            packets_consumed(old(self).consumer(), unpacketised(buf@), final(self).consumer()),
    {
        let ghost c0 = self.consumed@;
        let ghost k0 = self.consumer;
        let ghost mut done: Seq<Seq<u8>> = Seq::empty();
        let mut start: usize = 0;
        proof {
            assert(buf@.subrange(0, buf@.len() as int) =~= buf@);
        }
        while buf.len() - start >= PACKET_SIZE
            invariant
                start <= buf@.len(),
                c0 == old(self).consumed@,
                c0 + unpacketised(buf@) == self.consumed@ + unpacketised(
                    buf@.subrange(start as int, buf@.len() as int),
                ),
                self.consumed@ == c0 + done,
                k0 == old(self).consumer,
                packets_consumed(k0, done, self.consumer),
            decreases buf@.len() - start,
        {
            let ghost rest = buf@.subrange(start as int, buf@.len() as int);
            let pk = &buf[start..start + PACKET_SIZE];
            proof {
                assert(pk@ =~= rest.subrange(0, 188));
                assert(rest.subrange(188, rest.len() as int) =~= buf@.subrange(
                    start + 188,
                    buf@.len() as int,
                ));
            }
            if packet::Packet::is_sync_byte(pk[0]) {
                let ghost before = self.consumer;
                let r = self.consumer.consume(packet::Packet::new(pk));
                proof {
                    let d = done;
                    done = done.push(pk@);
                    assert(done.drop_last() =~= d);
                    assert(packets_consumed(k0, done.drop_last(), before) && before.consume_effect(
                        done.last(),
                        &self.consumer,
                        r,
                    ));
                    let c = self.consumed@;
                    self.consumed@ = self.consumed@.push(pk@);
                    assert(c + (seq![pk@] + unpacketised(rest.subrange(188, rest.len() as int)))
                        =~= self.consumed@ + unpacketised(rest.subrange(188, rest.len() as int)));
                }
            }
            start = start + PACKET_SIZE;
        }
        proof {
            assert(unpacketised(buf@.subrange(start as int, buf@.len() as int)) =~= Seq::<
                Seq<u8>,
            >::empty());
            assert(self.consumed@ + Seq::<Seq<u8>>::empty() =~= self.consumed@);
            assert(done =~= (c0 + done).subrange(c0.len() as int, (c0 + done).len() as int));
            assert(unpacketised(buf@) =~= (c0 + unpacketised(buf@)).subrange(
                c0.len() as int,
                (c0 + unpacketised(buf@)).len() as int,
            ));
        }
    }
}

/// Splitting resumes where the last buffer left off: after a buffer holding a whole number of
/// packets, the packets found in more data are those found in both buffers joined together.
pub proof fn lemma_unpacketised_concat(a: Seq<u8>, b: Seq<u8>)
    requires
        a.len() % 188 == 0,
    ensures
        unpacketised(a + b) == unpacketised(a) + unpacketised(b),
    decreases a.len(),
{
    if a.len() == 0 {
        assert(a + b =~= b);
        assert(unpacketised(a) + unpacketised(b) =~= unpacketised(b));
    } else {
        let ab = a + b;
        let a2 = a.subrange(188, a.len() as int);
        assert(ab.subrange(0, 188) =~= a.subrange(0, 188));
        assert(ab.subrange(188, ab.len() as int) =~= a2 + b);
        lemma_unpacketised_concat(a2, b);
        if a[0] == 0x47 {
            let pk = a.subrange(0, 188);
            assert(seq![pk] + (unpacketised(a2) + unpacketised(b)) =~= (seq![pk] + unpacketised(a2))
                + unpacketised(b));
        }
    }
}

/// Pushing the buffer `a`, holding a whole number of packets, and then the buffer `b` hands
/// the consumer the same packets, and leaves it as handling them does, as pushing `a` and `b`
/// joined together.
pub proof fn lemma_push_resumes<C: packet::PacketConsumer<()>>(u0: Unpacketise<C>, u1: Unpacketise<C>, u2: Unpacketise<C>, a: Seq<u8>, b: Seq<u8>)
    requires
        a.len() % 188 == 0,
        u1.consumed() == u0.consumed() + unpacketised(a),
        u2.consumed() == u1.consumed() + unpacketised(b),
        packets_consumed(u0.consumer(), unpacketised(a), u1.consumer()),
        packets_consumed(u1.consumer(), unpacketised(b), u2.consumer()),
    ensures
        u2.consumed() == u0.consumed() + unpacketised(a + b),
        packets_consumed(u0.consumer(), unpacketised(a + b), u2.consumer()),
{
    lemma_unpacketised_concat(a, b);
    lemma_packets_consumed_concat(u0.consumer(), unpacketised(a), u1.consumer(), unpacketised(b), u2.consumer());
    assert(u0.consumed() + unpacketised(a) + unpacketised(b) =~= u0.consumed() + (unpacketised(a)
        + unpacketised(b)));
}

} // verus!
