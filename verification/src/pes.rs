//! Support for Packetised Elementary Stream syntax within Transport Stream packet payloads.
//!
//! Elementary streams are split into 'elementary stream packets', which are then further split
//! into the payloads of transport stream packets.  The types here hand the pieces of each
//! elementary stream packet back to the application as they are found, without reassembling
//! (and so without copying) them.
use crate::demultiplex;
use crate::error::DemuxError;
use crate::packet;
use std::marker;
use vstd::prelude::*;

verus! {

/// Trait for types that will receive call-backs as pieces of a specific elementary stream are
/// encounted within a transport stream.
///
/// Instances of this type are registered with a [`PesPacketFilter`], which itself is
/// responsible for extracting elementary stream data from transport stream packets.
pub trait ElementaryStreamConsumer<Ctx> {
    /// How the call `ev` may change this consumer (into `after`) and the context (from `ctx`
    /// into `ctx_after`).  Any change is allowed, unless an implementation says more.
    open spec fn event_effect(&self, ctx: Ctx, ev: PesEvent, after: &Self, ctx_after: Ctx) -> bool {
        true
    }

    /// called before the first call to `begin_packet()`
    fn start_stream(&mut self, ctx: &mut Ctx)
        ensures
            old(self).event_effect(*old(ctx), PesEvent::StartStream, final(self), *final(ctx)),
    ;

    /// called with the header at the start of the PES packet, which may not contain the complete
    /// PES payload
    fn begin_packet(&mut self, ctx: &mut Ctx, header: PesHeader<'_>)
        ensures
            old(self).event_effect(*old(ctx), PesEvent::BeginPacket(header@), final(self), *final(ctx)),
    ;

    /// called after an earlier call to `begin_packet()` when another part of the packet's payload
    /// data is found in the Transport Stream.
    fn continue_packet(&mut self, ctx: &mut Ctx, data: &[u8])
        ensures
            old(self).event_effect(*old(ctx), PesEvent::ContinuePacket(data@), final(self), *final(ctx)),
    ;

    /// called when a PES packet ends, prior to the next call to `begin_packet()` (if any).
    fn end_packet(&mut self, ctx: &mut Ctx)
        ensures
            old(self).event_effect(*old(ctx), PesEvent::EndPacket, final(self), *final(ctx)),
    ;

    /// called when gap is seen in _continuity counter_ values for this stream, indicating that
    /// some data in the original Transport Stream did not reach the parser.
    fn continuity_error(&mut self, ctx: &mut Ctx)
        ensures
            old(self).event_effect(*old(ctx), PesEvent::ContinuityError, final(self), *final(ctx)),
    ;
}

/// `true` when the consumer `c0` and the context `x0` become `c1` and `x1` through the calls
/// `evs`, made one after another, each as the consumer's method for it does.
pub open spec fn es_run<Ctx, E: ElementaryStreamConsumer<Ctx>>(c0: E, x0: Ctx, evs: Seq<PesEvent>, c1: E, x1: Ctx) -> bool
    decreases evs.len(),
{
    if evs.len() == 0 {
        c1 == c0 && x1 == x0
    } else {
        exists|c: E, x: Ctx|
            #![trigger c.event_effect(x, evs.last(), &c1, x1)]
            es_run(c0, x0, evs.drop_last(), c, x) && c.event_effect(x, evs.last(), &c1, x1)
    }
}

/// One more call extends a run of calls.
proof fn lemma_es_run_push<Ctx, E: ElementaryStreamConsumer<Ctx>>(c0: E, x0: Ctx, evs: Seq<PesEvent>, c: E, x: Ctx, ev: PesEvent, c1: E, x1: Ctx)
    requires
        es_run(c0, x0, evs, c, x),
        c.event_effect(x, ev, &c1, x1),
    ensures
        es_run(c0, x0, evs.push(ev), c1, x1),
{
    assert(evs.push(ev).drop_last() =~= evs);
    assert(evs.push(ev).last() == ev);
}

/// The progress of a [`PesPacketFilter`] through its elementary stream.
#[derive(Debug, PartialEq, Eq, Structural, Clone, Copy)]
pub enum PesState {
    /// no packet starting a PES packet has been seen yet
    Begin,
    /// a PES packet is in progress
    Started,
    /// data was lost; the rest of the current PES packet is ignored
    IgnoreRest,
}

/// A call that a [`PesPacketFilter`] makes on its [`ElementaryStreamConsumer`].
pub enum PesEvent {
    /// `start_stream()`
    StartStream,
    /// `begin_packet()`, with a header over these bytes
    BeginPacket(Seq<u8>),
    /// `continue_packet()`, with these bytes
    ContinuePacket(Seq<u8>),
    /// `end_packet()`
    EndPacket,
    /// `continuity_error()`
    ContinuityError,
}

/// `true` when the packet `pk` continues the stream whose last packet had the continuity
/// counter `cc` (any packet does, when there was no last packet): the counter goes up by one,
/// modulo 16, in a packet with a payload, and stays the same in one without.
pub open spec fn pes_continuous(cc: Option<u8>, pk: Seq<u8>) -> bool {
    match cc {
        None => true,
        Some(c) => if (packet::spec_packet_adaptation_control(pk) is PayloadOnly
            || packet::spec_packet_adaptation_control(pk) is AdaptationFieldAndPayload) {
            pk[3] % 16 == (c + 1) % 16
        } else {
            pk[3] % 16 == c
        },
    }
}

/// What a [`PesPacketFilter`] in the state `st`, whose last packet had the continuity counter
/// `cc`, does with the packet `pk`: its state afterwards, and the calls it makes on its
/// consumer, in order.
///
/// * A discontinuity is reported with `continuity_error()`, and the rest of the PES packet in
///   progress is ignored.
/// * A packet starting a PES packet ends the one in progress (`end_packet()`), or, for the first
///   one of the stream, starts the stream (`start_stream()`); then `begin_packet()` is called
///   with its payload, when that holds a PES header.
/// * The non-empty payload of any other packet is passed to `continue_packet()` while a PES
///   packet is in progress, and ignored otherwise.
pub open spec fn pes_step(st: PesState, cc: Option<u8>, pk: Seq<u8>) -> (PesState, Seq<PesEvent>) {
    let st1 = if pes_continuous(cc, pk) {
        st
    } else {
        PesState::IgnoreRest
    };
    let ev1 = if pes_continuous(cc, pk) {
        Seq::<PesEvent>::empty()
    } else {
        seq![PesEvent::ContinuityError]
    };
    if (pk[1] / 64) % 2 == 1 {
        let ev2 = if st1 == PesState::Started {
            seq![PesEvent::EndPacket]
        } else if st1 == PesState::Begin {
            seq![PesEvent::StartStream]
        } else {
            Seq::<PesEvent>::empty()
        };
        let ev3 = match packet::spec_packet_payload(pk) {
            Some(p) => if spec_pes_header_ok(p) {
                seq![PesEvent::BeginPacket(p)]
            } else {
                Seq::<PesEvent>::empty()
            },
            None => Seq::<PesEvent>::empty(),
        };
        (PesState::Started, ev1 + ev2 + ev3)
    } else {
        let ev2 = if st1 == PesState::Started {
            match packet::spec_packet_payload(pk) {
                Some(p) => seq![PesEvent::ContinuePacket(p)],
                None => Seq::<PesEvent>::empty(),
            }
        } else {
            Seq::<PesEvent>::empty()
        };
        (st1, ev1 + ev2)
    }
}

/// The problems a [`PesPacketFilter`] in the state `st`, whose last packet had the continuity
/// counter `cc`, reports to the context for the packet `pk`: a packet that neither starts a PES
/// packet nor continues one after a discontinuity, arriving before the stream has started, is
/// reported as `MissingPayloadStartIndicator`.
pub open spec fn pes_step_errors(st: PesState, cc: Option<u8>, pk: Seq<u8>) -> Seq<DemuxError> {
    if (pk[1] / 64) % 2 == 0 && pes_continuous(cc, pk) && st == PesState::Begin {
        seq![DemuxError::MissingPayloadStartIndicator { pid: packet::pid_of(packet::spec_packet_pid(pk)) }]
    } else {
        Seq::empty()
    }
}

/// `true` when `start_stream()` appears at most once among the calls `events` made so far,
/// and not at all while the filter is still in the state `Begin`.
pub open spec fn pes_started_at_most_once(st: PesState, events: Seq<PesEvent>) -> bool {
    &&& forall|i: int, j: int|
        0 <= i < j < events.len() ==> !(#[trigger] events[i] is StartStream && #[trigger] events[j] is StartStream)
    &&& st == PesState::Begin ==> forall|i: int| 0 <= i < events.len() ==> !(#[trigger] events[i] is StartStream)
}

/// `true` when the calls `events` made so far agree with the state `st` as a stream starts in
/// order: no call before the first PES packet starts, and `start_stream()` first otherwise.
pub open spec fn pes_started_first(st: PesState, events: Seq<PesEvent>) -> bool {
    &&& st == PesState::Begin ==> events.len() == 0
    &&& st != PesState::Begin ==> events.len() > 0 && events[0] is StartStream
}

/// A [`PesPacketFilter`] calls `start_stream()` on its consumer at most once: each packet it
/// consumes keeps that so of the calls made so far.
pub proof fn lemma_start_stream_at_most_once(st: PesState, cc: Option<u8>, pk: Seq<u8>, events: Seq<PesEvent>)
    requires
        pes_started_at_most_once(st, events),
    ensures
        pes_started_at_most_once(pes_step(st, cc, pk).0, events + pes_step(st, cc, pk).1),
{
    let (st2, ev) = pes_step(st, cc, pk);
    let all = events + ev;
    assert forall|i: int, j: int| 0 <= i < j < all.len() implies !(#[trigger] all[i] is StartStream && #[trigger] all[j] is StartStream) by {
        if j >= events.len() {
            assert(all[j] == ev[j - events.len()]);
            if i >= events.len() {
                assert(all[i] == ev[i - events.len()]);
            }
        }
    }
    if st2 == PesState::Begin {
        assert forall|i: int| 0 <= i < all.len() implies !(#[trigger] all[i] is StartStream) by {
            if i >= events.len() {
                assert(all[i] == ev[i - events.len()]);
            }
        }
    }
}

/// A [`PesPacketFilter`] calls `start_stream()` on its consumer before any other method, as
/// long as no discontinuity is seen before the first PES packet starts: each such packet keeps
/// the calls made so far in agreement with the filter's state.
pub proof fn lemma_start_stream_first(st: PesState, cc: Option<u8>, pk: Seq<u8>, events: Seq<PesEvent>)
    requires
        pes_started_first(st, events),
        st == PesState::Begin ==> pes_continuous(cc, pk),
    ensures
        pes_started_first(pes_step(st, cc, pk).0, events + pes_step(st, cc, pk).1),
{
    let (st2, ev) = pes_step(st, cc, pk);
    let all = events + ev;
    if st == PesState::Begin && st2 != PesState::Begin {
        assert(all[0] == ev[0]);
    }
    if st != PesState::Begin {
        assert(all[0] == events[0]);
    }
}

/// Implementation of [`demultiplex::PacketFilter`] for packets that contain PES data.
///
/// Delegates handling of PES data to an implementation of [`ElementaryStreamConsumer`].
pub struct PesPacketFilter<Ctx, E> where
    Ctx: demultiplex::DemuxContext,
    E: ElementaryStreamConsumer<Ctx>,
 {
    stream_consumer: E,
    ccounter: Option<packet::ContinuityCounter>,
    state: PesState,
    events: Ghost<Seq<PesEvent>>,
    reported: Ghost<Seq<DemuxError>>,
    phantom: marker::PhantomData<Ctx>,
}

impl<Ctx, E> PesPacketFilter<Ctx, E> where
    Ctx: demultiplex::DemuxContext,
    E: ElementaryStreamConsumer<Ctx>,
 {
    /// The filter's progress through the stream.
    pub closed spec fn state(&self) -> PesState {
        self.state
    }

    /// The continuity counter of the last packet consumed, if any.
    pub closed spec fn last_counter(&self) -> Option<u8> {
        match self.ccounter {
            Some(c) => Some(c@),
            None => None,
        }
    }

    /// The consumer that the filter calls.
    pub closed spec fn consumer(&self) -> E {
        self.stream_consumer
    }

    /// The calls made on the consumer so far, in order.
    pub closed spec fn events(&self) -> Seq<PesEvent> {
        self.events@
    }

    /// The problems reported to the context so far, in order.
    pub closed spec fn reported(&self) -> Seq<DemuxError> {
        self.reported@
    }

    /// Construct a new `PesPacketFilter` that will pass pieces of PES data to the given
    /// `ElementaryStreamConsumer`
    pub fn new(stream_consumer: E) -> (r: PesPacketFilter<Ctx, E>)
        ensures
            r.state() == PesState::Begin,
            r.last_counter() is None,
            r.events() == Seq::<PesEvent>::empty(),
            r.consumer() == stream_consumer,
            r.reported() == Seq::<DemuxError>::empty(),
    {
        PesPacketFilter {
            stream_consumer,
            ccounter: None,
            state: PesState::Begin,
            events: Ghost(Seq::empty()),
            reported: Ghost(Seq::empty()),
            phantom: marker::PhantomData,
        }
    }

    fn is_continuous(&self, packet: &packet::Packet<'_>) -> (r: bool)
        ensures
            r == pes_continuous(self.last_counter(), packet@),
    {
        if let Some(cc) = self.ccounter {
            // counter only increases if the packet has a payload,
            if packet.adaptation_control().has_payload() {
                packet.continuity_counter().follows(cc)
            } else {
                packet.continuity_counter().count() == cc.count()
            }
        } else {
            true
        }
    }
}

impl<Ctx, E> demultiplex::PacketFilter for PesPacketFilter<Ctx, E> where
    Ctx: demultiplex::DemuxContext,
    E: ElementaryStreamConsumer<Ctx>,
 {
    type Ctx = Ctx;

    fn consume(&mut self, ctx: &mut Self::Ctx, packet: &packet::Packet<'_>)
        ensures
            ({
                let (st, ev) = pes_step(old(self).state(), old(self).last_counter(), packet@);
                &&& final(self).state() == st
                &&& final(self).events() == old(self).events() + ev
                &&& final(self).last_counter() == Some((packet@[3] % 16) as u8)
            }),
            final(self).reported() == old(self).reported() + pes_step_errors(
                old(self).state(),
                old(self).last_counter(),
                packet@,
            ),
            pes_step_errors(old(self).state(), old(self).last_counter(), packet@).len() == 0
                ==> es_run(
                old(self).consumer(),
                *old(ctx),
                pes_step(old(self).state(), old(self).last_counter(), packet@).1,
                final(self).consumer(),
                *final(ctx),
            ),
            pes_step_errors(old(self).state(), old(self).last_counter(), packet@).len() > 0
                ==> final(self).consumer() == old(self).consumer() && old(ctx).error_effect(
                pes_step_errors(old(self).state(), old(self).last_counter(), packet@)[0],
                final(ctx),
            ),
    {
        packet.lemma_well_formed();
        let ghost c0 = self.stream_consumer;
        let ghost x0 = *ctx;
        let ghost mut evs: Seq<PesEvent> = Seq::empty();
        let ghost e0 = self.events@;
        let ghost cc0 = self.last_counter();
        let ghost st0 = self.state;
        if !self.is_continuous(packet) {
            let ghost cb = self.stream_consumer;
            let ghost xb = *ctx;
            self.stream_consumer.continuity_error(ctx);
            proof {
                lemma_es_run_push(c0, x0, evs, cb, xb, PesEvent::ContinuityError, self.stream_consumer, *ctx);
                evs = evs.push(PesEvent::ContinuityError);
            }
            self.state = PesState::IgnoreRest;
            proof {
                self.events@ = self.events@.push(PesEvent::ContinuityError);
            }
        }
        let ghost e1 = self.events@;
        self.ccounter = Some(packet.continuity_counter());
        if packet.payload_unit_start_indicator() {
            if self.state == PesState::Started {
                let ghost cb = self.stream_consumer;
                let ghost xb = *ctx;
                self.stream_consumer.end_packet(ctx);
                proof {
                    lemma_es_run_push(c0, x0, evs, cb, xb, PesEvent::EndPacket, self.stream_consumer, *ctx);
                    evs = evs.push(PesEvent::EndPacket);
                }
                proof {
                    self.events@ = self.events@.push(PesEvent::EndPacket);
                }
            } else {
                // we might be in PesState::IgnoreRest, in which case we don't want to signal
                // a stream_start() to the consumer, which has already received stream_start()
                // and has presumably just been sent continuity_error() too,
                if self.state == PesState::Begin {
                    let ghost cb = self.stream_consumer;
                    let ghost xb = *ctx;
                    self.stream_consumer.start_stream(ctx);
                    proof {
                        lemma_es_run_push(c0, x0, evs, cb, xb, PesEvent::StartStream, self.stream_consumer, *ctx);
                        evs = evs.push(PesEvent::StartStream);
                    }
                    proof {
                        self.events@ = self.events@.push(PesEvent::StartStream);
                    }
                }
                self.state = PesState::Started;
            }
            let ghost e2 = self.events@;
            if let Some(payload) = packet.payload() {
                if let Some(header) = PesHeader::from_bytes(payload) {
                    let ghost cb = self.stream_consumer;
                    let ghost xb = *ctx;
                    self.stream_consumer.begin_packet(ctx, header);
                    proof {
                        lemma_es_run_push(c0, x0, evs, cb, xb, PesEvent::BeginPacket(payload@), self.stream_consumer, *ctx);
                        evs = evs.push(PesEvent::BeginPacket(payload@));
                    }
                    proof {
                        self.events@ = self.events@.push(PesEvent::BeginPacket(payload@));
                    }
                }
            }
            proof {
                let (st, ev) = pes_step(st0, cc0, packet@);
                assert(self.events@ =~= e0 + ev);
                assert(self.events@ =~= e0 + evs);
                assert(evs =~= ev);
                assert(self.reported@ =~= old(self).reported@ + pes_step_errors(st0, cc0, packet@));
            }
        } else {
            match self.state {
                PesState::Started => {
                    if let Some(payload) = packet.payload() {
                        if payload.len() != 0 {
                            let ghost cb = self.stream_consumer;
                            let ghost xb = *ctx;
                            self.stream_consumer.continue_packet(ctx, payload);
                            proof {
                                lemma_es_run_push(c0, x0, evs, cb, xb, PesEvent::ContinuePacket(payload@), self.stream_consumer, *ctx);
                                evs = evs.push(PesEvent::ContinuePacket(payload@));
                            }
                            proof {
                                self.events@ = self.events@.push(PesEvent::ContinuePacket(payload@));
                            }
                        }
                    }
                },
                PesState::Begin => {
                    let e = DemuxError::MissingPayloadStartIndicator { pid: packet.pid() };
                    ctx.error(e);
                    proof {
                        self.reported@ = self.reported@.push(e);
                    }
                },
                PesState::IgnoreRest => {},
            }
            proof {
                let (st, ev) = pes_step(st0, cc0, packet@);
                assert(self.events@ =~= e0 + ev);
                assert(self.events@ =~= e0 + evs);
                assert(evs =~= ev);
            }
        }
    }
}

/// Detail about the formatting problem which prevented a [`Timestamp`] value being parsed.
#[derive(PartialEq, Eq, Structural, Debug, Clone, Copy)]
pub enum TimestampError {
    /// The 'prefix-bit' values within the timestamp did not have the expected values
    IncorrectPrefixBits {
        /// expected prefix-bits for this timestamp
        expected: u8,
        /// the actual, incorrect bits that were present
        actual: u8,
    },
    /// A 'marker-bit' value within the timestamp did not have the expected value `1`
    MarkerBitNotSet {
        /// the bit-index of the bit which should have been 1, but was found to be 0
        bit_number: u8,
    },
}

/// A 33-bit Elementary Stream timestamp, used to represent PTS and DTS values which may appear
/// in an Elementary Stream header.
#[derive(PartialEq, Eq, Structural, Debug, Clone, Copy)]
pub struct Timestamp {
    val: u64,
}

impl View for Timestamp {
    type V = u64;

    closed spec fn view(&self) -> u64 {
        self.val
    }
}

/// Is bit number `n` of the byte sequence `s` set, counting from the most significant bit of
/// the first byte?
pub open spec fn spec_bit_set(s: Seq<u8>, n: int) -> bool {
    (s[n / 8] & (1u8 << ((7 - n % 8) as u8))) != 0
}

/// The marker-bit check made when decoding the 5-byte timestamp syntax: the first of the bits
/// 7, 23 and 39 that is clear, if any.
pub open spec fn spec_timestamp_marker_error(s: Seq<u8>) -> Option<TimestampError> {
    if !spec_bit_set(s, 7) {
        Some(TimestampError::MarkerBitNotSet { bit_number: 7 })
    } else if !spec_bit_set(s, 23) {
        Some(TimestampError::MarkerBitNotSet { bit_number: 23 })
    } else if !spec_bit_set(s, 39) {
        Some(TimestampError::MarkerBitNotSet { bit_number: 39 })
    } else {
        None
    }
}

/// The 33-bit value held in the 5-byte timestamp syntax: 3 bits from the first byte (after the
/// 4-bit prefix), then 15 bits from each of the following byte pairs, skipping marker bits.
pub open spec fn spec_timestamp_value(s: Seq<u8>) -> int {
    (s[0] / 2 % 8) * 0x4000_0000 + s[1] * 0x40_0000 + (s[2] / 2) * 0x8000 + s[3] * 0x80 + s[4] / 2
}

/// What [`Timestamp::from_bytes()`] produces for the given bytes, as a value or an error.
pub open spec fn spec_timestamp(s: Seq<u8>) -> Result<int, TimestampError> {
    match spec_timestamp_marker_error(s) {
        Some(e) => Err(e),
        None => Ok(spec_timestamp_value(s)),
    }
}

/// What `Timestamp::from_pts_bytes()` (`prefix == 0b0010`) or `Timestamp::from_dts_bytes()`
/// (`prefix == 0b0001`) produces for the given bytes.
pub open spec fn spec_prefixed_timestamp(s: Seq<u8>, prefix: u8) -> Result<int, TimestampError> {
    if s[0] / 16 != prefix {
        Err(TimestampError::IncorrectPrefixBits { expected: prefix, actual: s[0] / 16 })
    } else {
        spec_timestamp(s)
    }
}

/// The value-or-error view of a timestamp parsing result.
pub open spec fn timestamp_result_view(r: Result<Timestamp, TimestampError>) -> Result<
    int,
    TimestampError,
> {
    match r {
        Ok(t) => Ok(t@ as int),
        Err(e) => Err(e),
    }
}

impl Timestamp {
    /// The largest representable timestamp value before the timestamp wraps back around to zero.
    pub const MAX_VALUE: u64 = 0x1_ffff_ffff;

    /// 90kHz timebase in which PTS and DTS values are measured.
    pub const TIMEBASE: u64 = 90_000;

    /// Parse a Presentation Time Stamp value from the 5 bytes at the start of the given slice.
    pub fn from_pts_bytes(buf: &[u8]) -> (r: Result<Timestamp, TimestampError>)
        requires
            buf@.len() >= 5,
        ensures
            timestamp_result_view(r) == spec_prefixed_timestamp(buf@, 0b0010),
    {
        Timestamp::check_prefix(buf, 0b0010)?;
        Timestamp::from_bytes(buf)
    }

    /// Parse a Decode Time Stamp value from the 5 bytes at the start of the given slice.
    pub fn from_dts_bytes(buf: &[u8]) -> (r: Result<Timestamp, TimestampError>)
        requires
            buf@.len() >= 5,
        ensures
            timestamp_result_view(r) == spec_prefixed_timestamp(buf@, 0b0001),
    {
        Timestamp::check_prefix(buf, 0b0001)?;
        Timestamp::from_bytes(buf)
    }

    fn check_prefix(buf: &[u8], expected: u8) -> (r: Result<(), TimestampError>)
        requires
            buf@.len() >= 1,
            expected <= 0b1111,
        ensures
            r is Ok <==> buf@[0] / 16 == expected,
            r matches Err(e) ==> e == (TimestampError::IncorrectPrefixBits {
                expected,
                actual: buf@[0] / 16,
            }),
    {
        let actual = buf[0] / 16;
        if actual == expected {
            Ok(())
        } else {
            Err(TimestampError::IncorrectPrefixBits { expected, actual })
        }
    }

    fn check_marker_bit(buf: &[u8], bit_number: u8) -> (r: Result<(), TimestampError>)
        requires
            (bit_number as int) < 8 * buf@.len(),
        ensures
            r is Ok <==> spec_bit_set(buf@, bit_number as int),
            r matches Err(e) ==> e == (TimestampError::MarkerBitNotSet { bit_number }),
    {
        let byte_index = bit_number / 8;
        let bit_index = bit_number % 8;
        let bit_mask: u8 = 1u8 << (7 - bit_index);
        if buf[byte_index as usize] & bit_mask != 0 {
            Ok(())
        } else {
            Err(TimestampError::MarkerBitNotSet { bit_number })
        }
    }

    /// Parse a Time Stamp value from the 5 bytes at the start of the given slice, without
    /// checking the 4-bit prefix for any particular value.
    pub fn from_bytes(buf: &[u8]) -> (r: Result<Timestamp, TimestampError>)
        requires
            buf@.len() >= 5,
        ensures
            timestamp_result_view(r) == spec_timestamp(buf@),
            r matches Ok(t) ==> t@ < 0x2_0000_0000,
    {
        Timestamp::check_marker_bit(buf, 7)?;
        Timestamp::check_marker_bit(buf, 23)?;
        Timestamp::check_marker_bit(buf, 39)?;
        let val: u64 = (buf[0] / 2 % 8) as u64 * 0x4000_0000 + buf[1] as u64 * 0x40_0000 + (buf[2]
            / 2) as u64 * 0x8000 + buf[3] as u64 * 0x80 + (buf[4] / 2) as u64;
        Ok(Timestamp { val })
    }

    /// Construct a timestamp holding the given value, which must not exceed 2^33-1.
    pub fn from_u64(val: u64) -> (r: Timestamp)
        requires
            val < 0x2_0000_0000,
        ensures
            r@ == val,
    {
        Timestamp { val }
    }

    /// produces the timestamp's value
    pub fn value(self) -> (r: u64)
        ensures
            r == self@,
    {
        self.val
    }

    /// returns true if timestamps are likely to have wrapped around since `other`, given a
    /// current timestamp of `self`, and given the two timestamp values were taken no more than
    /// about _13.3 hours_ apart (half the time it takes for the wrap around to occur).
    pub fn likely_wrapped_since(self, other: Self) -> (r: bool)
        ensures
            r == (other@ > self@ && other@ - self@ > Self::MAX_VALUE / 2),
    {
        other.val > self.val && other.val - self.val > Self::MAX_VALUE / 2
    }
}

/// Type for the length of a PES packet
#[derive(Debug, PartialEq, Eq, Structural, Clone, Copy)]
pub enum PesLength {
    /// The PES packet continues until the next TS packet that has `payload_unit_start_indicator`
    /// set.
    Unbounded,
    /// The PES packet's length, which is never zero (and is likely to exceed the size of the
    /// TS packet that contains the PES packet header).
    Bounded(u16),
}

/// Values which may be returned by [`PesHeader::stream_id()`] to identify the kind of content
/// within the Packetized Elementary Stream.
#[derive(Debug, PartialEq, Eq, Structural, Clone, Copy)]
pub enum StreamId {
    /// `program_stream_map`
    ProgramStreamMap,
    /// `private_stream_1`
    PrivateStream1,
    /// `padding_stream`
    PaddingStream,
    /// `private_stream_2`
    PrivateStream2,
    /// ISO/IEC 13818-3 or ISO/IEC 11172-3 or ISO/IEC 13818-7 or ISO/IEC 14496-3 audio stream
    Audio(u8),
    /// H.262, H.264, H.265 and related video streams
    Video(u8),
    /// `ECM_stream`
    EcmStream,
    /// `EMM_stream`
    EmmStream,
    /// Rec. ITU-T H.222.0 | ISO/IEC 13818-1 Annex B or ISO/IEC 13818-6_DSMCC_stream
    DsmCc,
    /// ISO/IEC_13522_stream
    Iso13522Stream,
    /// Rec. ITU-T H.222.1 type A
    H2221TypeA,
    /// Rec. ITU-T H.222.1 type B
    H2221TypeB,
    /// Rec. ITU-T H.222.1 type C
    H2221TypeC,
    /// Rec. ITU-T H.222.1 type D
    H2221TypeD,
    /// Rec. ITU-T H.222.1 type E
    H2221TypeE,
    /// `ancillary_stream`
    AncillaryStream,
    /// ISO/IEC 14496-1_SL-packetized_stream
    SlPacketizedStream,
    /// ISO/IEC 14496-1_FlexMux_stream
    FlexMuxStream,
    /// metadata stream
    MetadataStream,
    /// `extended_stream_id`
    ExtendedStreamId,
    /// reserved data stream
    ReservedDataStream,
    /// `program_stream_directory`
    ProgramStreamDirectory,
    /// Encapsulates a stream_id value not specified in _ISO/IEC 13818-1_
    Unknown(u8),
}

/// The `StreamId` denoted by the given `stream_id` byte, per _ISO/IEC 13818-1_ Table 2-22.
pub open spec fn spec_stream_id(v: u8) -> StreamId {
    if v == 0xbc {
        StreamId::ProgramStreamMap
    } else if v == 0xbd {
        StreamId::PrivateStream1
    } else if v == 0xbe {
        StreamId::PaddingStream
    } else if v == 0xbf {
        StreamId::PrivateStream2
    } else if 0xc0 <= v <= 0xdf {
        StreamId::Audio((v % 32) as u8)
    } else if 0xe0 <= v <= 0xef {
        StreamId::Video((v % 16) as u8)
    } else if v == 0xf0 {
        StreamId::EcmStream
    } else if v == 0xf1 {
        StreamId::EmmStream
    } else if v == 0xf2 {
        StreamId::DsmCc
    } else if v == 0xf3 {
        StreamId::Iso13522Stream
    } else if v == 0xf4 {
        StreamId::H2221TypeA
    } else if v == 0xf5 {
        StreamId::H2221TypeB
    } else if v == 0xf6 {
        StreamId::H2221TypeC
    } else if v == 0xf7 {
        StreamId::H2221TypeD
    } else if v == 0xf8 {
        StreamId::H2221TypeE
    } else if v == 0xf9 {
        StreamId::AncillaryStream
    } else if v == 0xfa {
        StreamId::SlPacketizedStream
    } else if v == 0xfb {
        StreamId::FlexMuxStream
    } else if v == 0xfc {
        StreamId::MetadataStream
    } else if v == 0xfd {
        StreamId::ExtendedStreamId
    } else if v == 0xfe {
        StreamId::ReservedDataStream
    } else if v == 0xff {
        StreamId::ProgramStreamDirectory
    } else {
        StreamId::Unknown(v)
    }
}

/// Streams whose PES packets carry the optional PES header fields (rather than payload alone).
pub open spec fn spec_stream_id_is_parsed(id: StreamId) -> bool {
    !(id is ProgramStreamMap || id is PaddingStream || id is PrivateStream2 || id is EcmStream
        || id is EmmStream || id is ProgramStreamDirectory || id is DsmCc || id is H2221TypeE)
}

impl StreamId {
    fn is_parsed(&self) -> (r: bool)
        ensures
            r == spec_stream_id_is_parsed(*self),
    {
        !matches!(
            self,
            StreamId::ProgramStreamMap | StreamId::PaddingStream | StreamId::PrivateStream2
                | StreamId::EcmStream | StreamId::EmmStream | StreamId::ProgramStreamDirectory
                | StreamId::DsmCc | StreamId::H2221TypeE
        )
    }
}

impl vstd::std_specs::convert::FromSpecImpl<u8> for StreamId {
    open spec fn obeys_from_spec() -> bool {
        true
    }

    open spec fn from_spec(v: u8) -> StreamId {
        spec_stream_id(v)
    }
}

impl From<u8> for StreamId {
    fn from(v: u8) -> Self {
        if v == 0xbc {
            StreamId::ProgramStreamMap
        } else if v == 0xbd {
            StreamId::PrivateStream1
        } else if v == 0xbe {
            StreamId::PaddingStream
        } else if v == 0xbf {
            StreamId::PrivateStream2
        } else if 0xc0 <= v && v <= 0xdf {
            StreamId::Audio(v % 32)
        } else if 0xe0 <= v && v <= 0xef {
            StreamId::Video(v % 16)
        } else {
            match v {
                0xf0 => StreamId::EcmStream,
                0xf1 => StreamId::EmmStream,
                0xf2 => StreamId::DsmCc,
                0xf3 => StreamId::Iso13522Stream,
                0xf4 => StreamId::H2221TypeA,
                0xf5 => StreamId::H2221TypeB,
                0xf6 => StreamId::H2221TypeC,
                0xf7 => StreamId::H2221TypeD,
                0xf8 => StreamId::H2221TypeE,
                0xf9 => StreamId::AncillaryStream,
                0xfa => StreamId::SlPacketizedStream,
                0xfb => StreamId::FlexMuxStream,
                0xfc => StreamId::MetadataStream,
                0xfd => StreamId::ExtendedStreamId,
                0xfe => StreamId::ReservedDataStream,
                0xff => StreamId::ProgramStreamDirectory,
                _ => StreamId::Unknown(v),
            }
        }
    }
}

/// `true` when the bytes hold the 6-byte fixed PES header, starting with the
/// `packet_start_code_prefix` value `0x000001`.
pub open spec fn spec_pes_header_ok(s: Seq<u8>) -> bool {
    s.len() >= 6 && s[0] == 0 && s[1] == 0 && s[2] == 1
}

/// The `PES_packet_length` field of the PES header.
pub open spec fn spec_pes_packet_length(s: Seq<u8>) -> PesLength {
    let len = s[4] * 256 + s[5];
    if len == 0 {
        PesLength::Unbounded
    } else {
        PesLength::Bounded(len as u16)
    }
}

/// Header at the start of every PES packet.
///
/// The header identifies the stream (`stream_id()`) and the size of the PES packet
/// (`pes_packet_length()`), which may well be larger than the buffer from which the header was
/// read (the payload is likely split across multiple Transport Stream packets).  In addition,
/// `contents()` gives access either to a set of optional header fields followed by the payload,
/// or to the payload alone, depending on the stream.
pub struct PesHeader<'buf> {
    buf: &'buf [u8],
}

impl<'buf> View for PesHeader<'buf> {
    type V = Seq<u8>;

    closed spec fn view(&self) -> Seq<u8> {
        self.buf@
    }
}

impl<'buf> PesHeader<'buf> {
    #[verifier::type_invariant]
    spec fn inv(self) -> bool {
        spec_pes_header_ok(self.buf@)
    }

    const FIXED_HEADER_SIZE: usize = 6;

    /// Wraps the given slice in a PesHeader, which will then provide methods to parse the
    /// header fields within the slice.
    ///
    /// Returns `None` if the buffer is too small to hold the PES header, or if the PES
    /// 'start code prefix' is missing.
    pub fn from_bytes(buf: &'buf [u8]) -> (r: Option<PesHeader<'buf>>)
        ensures
            r is Some <==> spec_pes_header_ok(buf@),
            r matches Some(h) ==> h@ == buf@,
    {
        if buf.len() < Self::FIXED_HEADER_SIZE {
            return None;
        }
        let packet_start_code_prefix = buf[0] as u32 * 0x1_0000 + buf[1] as u32 * 0x100
            + buf[2] as u32;
        if packet_start_code_prefix != 1 {
            return None;
        }
        Some(PesHeader { buf })
    }

    /// Indicator of the type of stream per _ISO/IEC 13818-1_, _Table 2-18_.
    pub fn stream_id(&self) -> (r: StreamId)
        ensures
            r == spec_stream_id(self@[3]),
    {
        proof {
            use_type_invariant(self);
        }
        StreamId::from(self.buf[3])
    }

    /// The overall length of the PES packet, once all pieces from the transport stream have
    /// been collected.
    pub fn pes_packet_length(&self) -> (r: PesLength)
        ensures
            r == spec_pes_packet_length(self@),
    {
        proof {
            use_type_invariant(self);
        }
        let len = self.buf[4] as u16 * 256 + self.buf[5] as u16;
        if len == 0 {
            PesLength::Unbounded
        } else {
            PesLength::Bounded(len)
        }
    }

    /// Either `PesContents::Parsed`, or `PesContents::Payload`, depending on the value of
    /// `stream_id()`
    pub fn contents(&self) -> (r: PesContents<'buf>)
        ensures
            ({
                let rest = self@.subrange(6, self@.len() as int);
                if spec_stream_id_is_parsed(spec_stream_id(self@[3])) {
                    r matches PesContents::Parsed(p) && (p is Some <==> spec_pes_parsed_ok(rest))
                        && (p matches Some(c) ==> c@ == rest)
                } else {
                    r matches PesContents::Payload(b) && b@ == rest
                }
            }),
    {
        proof {
            use_type_invariant(self);
        }
        let rest = &self.buf[Self::FIXED_HEADER_SIZE..self.buf.len()];
        if self.stream_id().is_parsed() {
            PesContents::Parsed(PesParsedContents::from_bytes(rest))
        } else {
            PesContents::Payload(rest)
        }
    }
}

/// Errors which may be encountered while processing PES data.
#[derive(Debug, PartialEq, Eq, Structural, Clone, Copy)]
pub enum PesError {
    /// The value of an optional field was requested, but the field is not actually present in
    /// the given PES data
    FieldNotPresent,
    /// The `pts_dts_flags` field of the PES packet signals that DTS is present and PTS is not,
    /// which is not a valid combination
    PtsDtsFlagsInvalid,
    /// There is not enough data in the buffer to hold the expected syntax element
    NotEnoughData {
        /// the number of bytes required to hold the requested syntax element
        requested: usize,
        /// the number of bytes actually remaining in the buffer
        available: usize,
    },
    /// Marker bits are expected to always have the value `1` -- the value `0` presumably implies
    /// a parsing error.
    MarkerBitNotSet,
}

/// Either `PesContents::Payload`, when the `PesHeader` has no extra fields, or
/// `PesContents::Parsed`, when the header provides additional optional fields exposed in a
/// `PesParsedContents` object.
pub enum PesContents<'buf> {
    /// payload with extra PES headers (or `None` if those headers are malformed)
    Parsed(Option<PesParsedContents<'buf>>),
    /// just payload without headers
    Payload(&'buf [u8]),
}

/// _Digital Storage Media_ 'trick mode' options.
#[derive(Debug, PartialEq, Eq, Structural, Clone, Copy)]
pub enum DsmTrickMode {
    /// fast forward
    FastForward {
        /// which field(s) are to be displayed
        field_id: u8,
        /// missing macroblocks may be expected
        intra_slice_refresh: bool,
        /// restricted set of coefficients in use
        frequency_truncation: FrequencyTruncationCoefficientSelection,
    },
    /// slow motion
    SlowMotion {
        /// number of times each field is repeated
        rep_cntrl: u8,
    },
    /// freeze frame
    FreezeFrame {
        /// which field(s) are to be displayed
        field_id: u8,
        /// reserved bits
        reserved: u8,
    },
    /// fast reverse
    FastReverse {
        /// which field(s) are to be displayed
        field_id: u8,
        /// missing macroblocks may be expected
        intra_slice_refresh: bool,
        /// restricted set of coefficients in use
        frequency_truncation: FrequencyTruncationCoefficientSelection,
    },
    /// slow reverse
    SlowReverse {
        /// number of times each field is repeated
        rep_cntrl: u8,
    },
    /// a reserved `trick_mode_control` value
    Reserved {
        /// the trick mode control value
        reserved: u8,
    },
}

/// Indication of the restricted set of coefficients that may have been used to encode the
/// video, specified within [`DsmTrickMode`].
#[derive(Debug, PartialEq, Eq, Structural, Clone, Copy)]
pub enum FrequencyTruncationCoefficientSelection {
    /// Only DC coefficients are non-zero
    DCNonZero,
    /// Only the first three coefficients are non-zero
    FirstThreeNonZero,
    /// Only the first six coefficients are non-zero
    FirstSixNonZero,
    /// All coefficients may be non-zero
    AllMaybeNonZero,
}

/// The coefficient selection denoted by the given 2-bit value.
pub open spec fn spec_frequency_truncation(id: u8) -> FrequencyTruncationCoefficientSelection {
    if id == 0 {
        FrequencyTruncationCoefficientSelection::DCNonZero
    } else if id == 1 {
        FrequencyTruncationCoefficientSelection::FirstThreeNonZero
    } else if id == 2 {
        FrequencyTruncationCoefficientSelection::FirstSixNonZero
    } else {
        FrequencyTruncationCoefficientSelection::AllMaybeNonZero
    }
}

impl FrequencyTruncationCoefficientSelection {
    fn from_id(id: u8) -> (r: Self)
        requires
            id < 4,
        ensures
            r == spec_frequency_truncation(id),
    {
        match id {
            0 => FrequencyTruncationCoefficientSelection::DCNonZero,
            1 => FrequencyTruncationCoefficientSelection::FirstThreeNonZero,
            2 => FrequencyTruncationCoefficientSelection::FirstSixNonZero,
            _ => FrequencyTruncationCoefficientSelection::AllMaybeNonZero,
        }
    }
}

/// The trick mode described by the given `DSM_trick_mode` byte: a 3-bit `trick_mode_control`
/// value followed by 5 bits whose meaning depends on it.  (For the slow motion and slow reverse
/// modes, the value reported as `rep_cntrl` is the `trick_mode_control` value.)
pub open spec fn spec_dsm_trick_mode(b: u8) -> DsmTrickMode {
    let control = b / 32;
    let data = b % 32;
    if control == 0 {
        DsmTrickMode::FastForward {
            field_id: data / 8,
            intra_slice_refresh: (data / 4) % 2 == 1,
            frequency_truncation: spec_frequency_truncation(data % 4),
        }
    } else if control == 1 {
        DsmTrickMode::SlowMotion { rep_cntrl: control }
    } else if control == 2 {
        DsmTrickMode::FreezeFrame { field_id: data / 8, reserved: data % 8 }
    } else if control == 3 {
        DsmTrickMode::FastReverse {
            field_id: data / 8,
            intra_slice_refresh: (data / 4) % 2 == 1,
            frequency_truncation: spec_frequency_truncation(data % 4),
        }
    } else if control == 4 {
        DsmTrickMode::SlowReverse { rep_cntrl: control }
    } else {
        DsmTrickMode::Reserved { reserved: control }
    }
}

/// Indication of an Elementary Stream's data rate, in units of 50 bytes per second.
#[derive(Debug, PartialEq, Eq, Structural, Clone, Copy)]
pub struct EsRate(u32);

impl View for EsRate {
    type V = u32;

    closed spec fn view(&self) -> u32 {
        self.0
    }
}

impl EsRate {
    #[verifier::type_invariant]
    spec fn inv(self) -> bool {
        self.0 < 0x40_0000
    }

    const RATE_BYTES_PER_SECOND: u32 = 50;

    /// Construct from the given 22-bit `es_rate` value, which must not exceed 2^22-1.
    pub fn new(es_rate: u32) -> (r: EsRate)
        requires
            es_rate < 0x40_0000,
        ensures
            r@ == es_rate,
    {
        EsRate(es_rate)
    }

    /// return the _es_rate_ value converted into a bytes-per-second quantity.
    pub fn bytes_per_second(&self) -> (r: u32)
        ensures
            r == self@ * 50,
    {
        proof {
            use_type_invariant(self);
        }
        self.0 * Self::RATE_BYTES_PER_SECOND
    }
}

impl vstd::std_specs::convert::FromSpecImpl<EsRate> for u32 {
    open spec fn obeys_from_spec() -> bool {
        true
    }

    open spec fn from_spec(v: EsRate) -> u32 {
        v@
    }
}

impl From<EsRate> for u32 {
    fn from(r: EsRate) -> Self {
        r.0
    }
}

/// The bytes of the `PES_extension` structure, which this crate does not parse further.
#[derive(Debug)]
pub struct PesExtension<'buf> {
    _buf: &'buf [u8],
}

impl<'buf> View for PesExtension<'buf> {
    type V = Seq<u8>;

    closed spec fn view(&self) -> Seq<u8> {
        self._buf@
    }
}

/// The `PTS_DTS_flags` field.
pub open spec fn ppc_pts_dts_flags(s: Seq<u8>) -> u8 {
    s[1] / 64
}

/// The `ESCR_flag` field.
pub open spec fn ppc_escr_flag(s: Seq<u8>) -> bool {
    (s[1] / 32) % 2 == 1
}

/// The `ES_rate_flag` field.
pub open spec fn ppc_es_rate_flag(s: Seq<u8>) -> bool {
    (s[1] / 16) % 2 == 1
}

/// The `DSM_trick_mode_flag` field.
pub open spec fn ppc_dsm_trick_mode_flag(s: Seq<u8>) -> bool {
    (s[1] / 8) % 2 == 1
}

/// The `additional_copy_info_flag` field.
pub open spec fn ppc_additional_copy_info_flag(s: Seq<u8>) -> bool {
    (s[1] / 4) % 2 == 1
}

/// The `PES_CRC_flag` field.
pub open spec fn ppc_crc_flag(s: Seq<u8>) -> bool {
    (s[1] / 2) % 2 == 1
}

/// The `PES_extension_flag` field.
pub open spec fn ppc_extension_flag(s: Seq<u8>) -> bool {
    s[1] % 2 == 1
}

/// Offset of the end of the optional header fields: 3 fixed bytes then
/// `PES_header_data_length` bytes.
pub open spec fn ppc_header_end(s: Seq<u8>) -> int {
    3 + s[2]
}

/// Offset of the end of any PTS/DTS fields.
pub open spec fn ppc_pts_dts_end(s: Seq<u8>) -> int {
    3 + if ppc_pts_dts_flags(s) == 2 {
        5int
    } else if ppc_pts_dts_flags(s) == 3 {
        10int
    } else {
        0int
    }
}

/// Offset of the end of any ESCR field.
pub open spec fn ppc_escr_end(s: Seq<u8>) -> int {
    ppc_pts_dts_end(s) + if ppc_escr_flag(s) { 6int } else { 0int }
}

/// Offset of the end of any ES_rate field.
pub open spec fn ppc_es_rate_end(s: Seq<u8>) -> int {
    ppc_escr_end(s) + if ppc_es_rate_flag(s) { 3int } else { 0int }
}

/// Offset of the end of any DSM_trick_mode field.
pub open spec fn ppc_dsm_trick_mode_end(s: Seq<u8>) -> int {
    ppc_es_rate_end(s) + if ppc_dsm_trick_mode_flag(s) { 1int } else { 0int }
}

/// Offset of the end of any additional_copy_info field.
pub open spec fn ppc_additional_copy_info_end(s: Seq<u8>) -> int {
    ppc_dsm_trick_mode_end(s) + if ppc_additional_copy_info_flag(s) { 1int } else { 0int }
}

/// Offset of the end of any previous_PES_packet_CRC field.
pub open spec fn ppc_crc_end(s: Seq<u8>) -> int {
    ppc_additional_copy_info_end(s) + if ppc_crc_flag(s) { 2int } else { 0int }
}

/// `true` when the bytes hold well-formed optional PES header fields: at least the 3 fixed
/// bytes, the `'10'` check bits, a `PES_header_data_length` that fits within the buffer, and
/// room within that length for every field whose flag is set (up to the CRC field).
pub open spec fn spec_pes_parsed_ok(s: Seq<u8>) -> bool {
    &&& s.len() >= 3
    &&& s[0] / 64 == 2
    &&& ppc_header_end(s) <= s.len()
    &&& ppc_crc_end(s) <= ppc_header_end(s)
}

/// The `ESCR_base` value held in the 6-byte ESCR syntax.
pub open spec fn spec_escr_base(s: Seq<u8>) -> int {
    ((s[0] / 8) % 8) * 0x4000_0000 + (s[0] % 4) * 0x1000_0000 + s[1] * 0x10_0000 + (s[2] / 8)
        * 0x8000 + (s[2] % 4) * 0x2000 + s[3] * 0x20 + s[4] / 8
}

/// The `ESCR_extension` value held in the 6-byte ESCR syntax.
pub open spec fn spec_escr_extension(s: Seq<u8>) -> int {
    (s[4] % 4) * 0x80 + s[5] / 2
}

/// The 22-bit `ES_rate` value held in the 3-byte ES_rate syntax.
pub open spec fn spec_es_rate(s: Seq<u8>) -> int {
    (s[0] % 128) * 0x8000 + s[1] * 0x80 + s[2] / 2
}

/// Contains some combination of PTS and DTS timestamps (or maybe neither).
///
/// The timestamps are wrapped in `Result`, in case an error in the stored timestamp syntax
/// means that it can't be decoded.
#[derive(PartialEq, Eq, Debug, Clone, Copy)]
pub enum PtsDts {
    /// There are no timestamps present
    NoTimestamps,
    /// Only Presentation Time Stamp is present
    PtsOnly(Result<Timestamp, TimestampError>),
    /// the _pts_dts_flags_ field contained an invalid value
    Invalid,
    /// Both Presentation and Decode Time Stamps are present
    Both {
        /// Presentation Time Stamp
        pts: Result<Timestamp, TimestampError>,
        /// Decode Time Stamp
        dts: Result<Timestamp, TimestampError>,
    },
}

/// Indicates if the start of some 'unit' of Elementary Stream content is immediately at the
/// start of the PES packet payload.
#[derive(PartialEq, Eq, Structural, Debug, Clone, Copy)]
pub enum DataAlignment {
    /// Access Units are aligned to the start of the PES packet payload
    Aligned,
    /// Access Units might not be aligned to the start of the PES packet payload
    NotAligned,
}

/// Indicates the copyright status of the contents of the Elementary Stream packet.
#[derive(PartialEq, Eq, Structural, Debug, Clone, Copy)]
pub enum Copyright {
    /// Content of this Elementary Stream is protected by copyright
    Protected,
    /// Copyright protection of the content of this Elementary Stream is not defined
    Undefined,
}

/// Indicates whether the contents of the Elementary Stream packet are original or a copy.
#[derive(PartialEq, Eq, Structural, Debug, Clone, Copy)]
pub enum OriginalOrCopy {
    /// The Elementary Stream is original content
    Original,
    /// The Elementary Stream is a copy
    Copy,
}

/// Extra data which may optionally be present in the `PesHeader`, potentially including
/// Presentation Timestamp (PTS) and Decode Timestamp (DTS) values.
#[derive(Debug)]
pub struct PesParsedContents<'buf> {
    buf: &'buf [u8],
}

impl<'buf> View for PesParsedContents<'buf> {
    type V = Seq<u8>;

    closed spec fn view(&self) -> Seq<u8> {
        self.buf@
    }
}

impl<'buf> PesParsedContents<'buf> {
    #[verifier::type_invariant]
    spec fn inv(self) -> bool {
        spec_pes_parsed_ok(self.buf@)
    }

    const FIXED_HEADER_SIZE: usize = 3;

    const TIMESTAMP_SIZE: usize = 5;

    /// Wrap the given slice in a `PesParsedContents` whose methods can parse the structure's
    /// fields.
    ///
    /// Returns `None` if the buffer is too short to hold the expected structure, or if the
    /// 'check bit' values within the buffer do not have the expected values.
    pub fn from_bytes(buf: &'buf [u8]) -> (r: Option<PesParsedContents<'buf>>)
        ensures
            r is Some <==> spec_pes_parsed_ok(buf@),
            r matches Some(c) ==> c@ == buf@,
    {
        if buf.len() < Self::FIXED_HEADER_SIZE {
            return None;
        }
        let check_bits = buf[0] / 64;
        if check_bits != 0b10 {
            return None;
        }
        let header_end = Self::FIXED_HEADER_SIZE + buf[2] as usize;
        if header_end > buf.len() {
            return None;
        }
        if Self::crc_end_of(buf) > header_end {
            return None;
        }
        Some(PesParsedContents { buf })
    }

    fn crc_end_of(buf: &[u8]) -> (r: usize)
        requires
            buf@.len() >= 3,
        ensures
            r == ppc_crc_end(buf@),
    {
        let b = buf[1];
        let flags = b / 64;
        let pts_dts_end: usize = if flags == 2 {
            8
        } else if flags == 3 {
            13
        } else {
            3
        };
        let escr_end = pts_dts_end + if (b / 32) % 2 == 1 {
            6
        } else {
            0
        };
        let es_rate_end = escr_end + if (b / 16) % 2 == 1 {
            3
        } else {
            0
        };
        let dsm_end = es_rate_end + if (b / 8) % 2 == 1 {
            1
        } else {
            0
        };
        let aci_end = dsm_end + if (b / 4) % 2 == 1 {
            1
        } else {
            0
        };
        aci_end + if (b / 2) % 2 == 1 {
            2
        } else {
            0
        }
    }

    /// value 1 indicates higher priority and 0 indicates lower priority
    pub fn pes_priority(&self) -> (r: u8)
        ensures
            r == (self@[0] / 8) % 2,
    {
        proof {
            use_type_invariant(self);
        }
        (self.buf[0] / 8) % 2
    }

    /// if the returned value is `DataAlignment::Aligned`, then video or audio access units
    /// within this PES data are aligned to the start of PES packets.  If the value is
    /// `DataAlignment::NotAligned`, then alignment of access units is not defined.
    pub fn data_alignment_indicator(&self) -> (r: DataAlignment)
        ensures
            r == (if (self@[0] / 4) % 2 == 1 {
                DataAlignment::Aligned
            } else {
                DataAlignment::NotAligned
            }),
    {
        proof {
            use_type_invariant(self);
        }
        if (self.buf[0] / 4) % 2 == 1 {
            DataAlignment::Aligned
        } else {
            DataAlignment::NotAligned
        }
    }

    /// Indicates copyright status of the material in this PES data.
    pub fn copyright(&self) -> (r: Copyright)
        ensures
            r == (if (self@[0] / 2) % 2 == 1 {
                Copyright::Undefined
            } else {
                Copyright::Protected
            }),
    {
        proof {
            use_type_invariant(self);
        }
        if (self.buf[0] / 2) % 2 == 1 {
            Copyright::Undefined
        } else {
            Copyright::Protected
        }
    }

    /// Indicates the originality of the data in this PES stream.
    pub fn original_or_copy(&self) -> (r: OriginalOrCopy)
        ensures
            r == (if self@[0] % 2 == 1 {
                OriginalOrCopy::Original
            } else {
                OriginalOrCopy::Copy
            }),
    {
        proof {
            use_type_invariant(self);
        }
        if self.buf[0] % 2 == 1 {
            OriginalOrCopy::Original
        } else {
            OriginalOrCopy::Copy
        }
    }

    fn pts_dts_flags(&self) -> (r: u8)
        ensures
            r == ppc_pts_dts_flags(self@),
            r < 4,
    {
        proof {
            use_type_invariant(self);
        }
        self.buf[1] / 64
    }

    fn escr_flag(&self) -> (r: bool)
        ensures
            r == ppc_escr_flag(self@),
    {
        proof {
            use_type_invariant(self);
        }
        (self.buf[1] / 32) % 2 == 1
    }

    fn esrate_flag(&self) -> (r: bool)
        ensures
            r == ppc_es_rate_flag(self@),
    {
        proof {
            use_type_invariant(self);
        }
        (self.buf[1] / 16) % 2 == 1
    }

    fn dsm_trick_mode_flag(&self) -> (r: bool)
        ensures
            r == ppc_dsm_trick_mode_flag(self@),
    {
        proof {
            use_type_invariant(self);
        }
        (self.buf[1] / 8) % 2 == 1
    }

    fn additional_copy_info_flag(&self) -> (r: bool)
        ensures
            r == ppc_additional_copy_info_flag(self@),
    {
        proof {
            use_type_invariant(self);
        }
        (self.buf[1] / 4) % 2 == 1
    }

    fn pes_crc_flag(&self) -> (r: bool)
        ensures
            r == ppc_crc_flag(self@),
    {
        proof {
            use_type_invariant(self);
        }
        (self.buf[1] / 2) % 2 == 1
    }

    fn pes_extension_flag(&self) -> (r: bool)
        ensures
            r == ppc_extension_flag(self@),
    {
        proof {
            use_type_invariant(self);
        }
        self.buf[1] % 2 == 1
    }

    fn pes_header_data_len(&self) -> (r: usize)
        ensures
            r == self@[2],
    {
        proof {
            use_type_invariant(self);
        }
        self.buf[2] as usize
    }

    fn header_slice(&self, from: usize, to: usize) -> (r: Result<&'buf [u8], PesError>)
        requires
            from <= to,
        ensures
            to > ppc_header_end(self@) ==> r == Err::<&'buf [u8], PesError>(
                PesError::NotEnoughData { requested: to, available: ppc_header_end(self@) as usize },
            ),
            to <= ppc_header_end(self@) ==> (r matches Ok(sl) && sl@ == self@.subrange(from as int, to as int)),
    {
        proof {
            use_type_invariant(self);
        }
        if to > self.pes_header_data_len() + Self::FIXED_HEADER_SIZE {
            Err(
                PesError::NotEnoughData {
                    requested: to,
                    available: self.pes_header_data_len() + Self::FIXED_HEADER_SIZE,
                },
            )
        } else if to > self.buf.len() {
            Err(PesError::NotEnoughData { requested: to, available: self.buf.len() })
        } else {
            Ok(&self.buf[from..to])
        }
    }

    fn pts_dts_end(&self) -> (r: usize)
        ensures
            r == ppc_pts_dts_end(self@),
    {
        match self.pts_dts_flags() {
            0b10 => Self::FIXED_HEADER_SIZE + Self::TIMESTAMP_SIZE,
            0b11 => Self::FIXED_HEADER_SIZE + Self::TIMESTAMP_SIZE * 2,
            _ => Self::FIXED_HEADER_SIZE,
        }
    }

    /// Returns the timestamps present in this PES header.
    ///
    /// If no timestamp fields are present, then `Err(PesError::FieldNotPresent)` is produced.
    /// If the value of the _pts_dts_flags_ field in the header is invalid then
    /// `Err(PesError::PtsDtsFlagsInvalid)` is produced.
    pub fn pts_dts(&self) -> (r: Result<PtsDts, PesError>)
        ensures
            ({
                let s = self@;
                let flags = ppc_pts_dts_flags(s);
                &&& flags == 0 ==> r == Err::<PtsDts, PesError>(PesError::FieldNotPresent)
                &&& flags == 1 ==> r == Err::<PtsDts, PesError>(PesError::PtsDtsFlagsInvalid)
                &&& flags == 2 ==> (r matches Ok(PtsDts::PtsOnly(p)) && timestamp_result_view(p)
                    == spec_timestamp(s.subrange(3, 8)))
                &&& flags == 3 ==> (r matches Ok(PtsDts::Both { pts, dts }) && timestamp_result_view(pts)
                    == spec_timestamp(s.subrange(3, 8)) && timestamp_result_view(dts)
                    == spec_timestamp(s.subrange(8, 13)))
            }),
    {
        proof {
            use_type_invariant(self);
        }
        match self.pts_dts_flags() {
            0b00 => Err(PesError::FieldNotPresent),
            0b01 => Err(PesError::PtsDtsFlagsInvalid),
            0b10 => {
                let s = self.header_slice(Self::FIXED_HEADER_SIZE, self.pts_dts_end())?;
                Ok(PtsDts::PtsOnly(Timestamp::from_bytes(s)))
            },
            _ => {
                let s = self.header_slice(Self::FIXED_HEADER_SIZE, self.pts_dts_end())?;
                let pts = Timestamp::from_bytes(&s[0..Self::TIMESTAMP_SIZE]);
                let dts = Timestamp::from_bytes(&s[Self::TIMESTAMP_SIZE..s.len()]);
                proof {
                    assert(s@.subrange(0, 5) =~= self@.subrange(3, 8));
                    assert(s@.subrange(5, 10) =~= self@.subrange(8, 13));
                }
                Ok(PtsDts::Both { pts, dts })
            },
        }
    }

    const ESCR_SIZE: usize = 6;

    /// Returns the 'Elementary Stream Clock Reference' value.
    ///
    /// If the field is not present in the header, then `Err(PesError::FieldNotPresent)` is
    /// produced.
    pub fn escr(&self) -> (r: Result<packet::PCR, PesError>)
        ensures
            !ppc_escr_flag(self@) ==> r == Err::<packet::PCR, PesError>(PesError::FieldNotPresent),
            ppc_escr_flag(self@) ==> ({
                let f = self@.subrange(ppc_pts_dts_end(self@), ppc_pts_dts_end(self@) + 6);
                r matches Ok(c) && c@.0 == spec_escr_base(f) && c@.1 == spec_escr_extension(f)
            }),
    {
        proof {
            use_type_invariant(self);
        }
        if self.escr_flag() {
            let s = self.header_slice(self.pts_dts_end(), self.pts_dts_end() + Self::ESCR_SIZE)?;
            let base = ((s[0] / 8) % 8) as u64 * 0x4000_0000 + (s[0] % 4) as u64 * 0x1000_0000
                + s[1] as u64 * 0x10_0000 + (s[2] / 8) as u64 * 0x8000 + (s[2] % 4) as u64 * 0x2000
                + s[3] as u64 * 0x20 + (s[4] / 8) as u64;
            let extension = (s[4] % 4) as u16 * 0x80 + (s[5] / 2) as u16;
            Ok(packet::PCR::from_parts(base, extension))
        } else {
            Err(PesError::FieldNotPresent)
        }
    }

    fn escr_end(&self) -> (r: usize)
        ensures
            r == ppc_escr_end(self@),
    {
        self.pts_dts_end() + if self.escr_flag() {
            Self::ESCR_SIZE
        } else {
            0
        }
    }

    const ES_RATE_SIZE: usize = 3;

    /// Returns the 'Elementary Stream Rate' value.
    ///
    /// If the field is not present in the header, then `Err(PesError::FieldNotPresent)` is
    /// produced.
    pub fn es_rate(&self) -> (r: Result<EsRate, PesError>)
        ensures
            !ppc_es_rate_flag(self@) ==> r == Err::<EsRate, PesError>(PesError::FieldNotPresent),
            ppc_es_rate_flag(self@) ==> (r matches Ok(e) && e@ == spec_es_rate(
                self@.subrange(ppc_escr_end(self@), ppc_escr_end(self@) + 3),
            )),
    {
        proof {
            use_type_invariant(self);
        }
        if self.esrate_flag() {
            let s = self.header_slice(self.escr_end(), self.escr_end() + Self::ES_RATE_SIZE)?;
            Ok(EsRate::new((s[0] % 128) as u32 * 0x8000 + s[1] as u32 * 0x80 + (s[2] / 2) as u32))
        } else {
            Err(PesError::FieldNotPresent)
        }
    }

    fn es_rate_end(&self) -> (r: usize)
        ensures
            r == ppc_es_rate_end(self@),
    {
        self.escr_end() + if self.esrate_flag() {
            Self::ES_RATE_SIZE
        } else {
            0
        }
    }

    const DSM_TRICK_MODE_SIZE: usize = 1;

    /// Returns information about the 'Digital Storage Media trick mode'
    ///
    /// If the field is not present in the header, then `Err(PesError::FieldNotPresent)` is
    /// produced.
    pub fn dsm_trick_mode(&self) -> (r: Result<DsmTrickMode, PesError>)
        ensures
            !ppc_dsm_trick_mode_flag(self@) ==> r == Err::<DsmTrickMode, PesError>(PesError::FieldNotPresent),
            ppc_dsm_trick_mode_flag(self@) ==> r == Ok::<DsmTrickMode, PesError>(
                spec_dsm_trick_mode(self@[ppc_es_rate_end(self@)]),
            ),
    {
        proof {
            use_type_invariant(self);
        }
        if self.dsm_trick_mode_flag() {
            let s = self.header_slice(
                self.es_rate_end(),
                self.es_rate_end() + Self::DSM_TRICK_MODE_SIZE,
            )?;
            let trick_mode_control = s[0] / 32;
            let trick_mode_data = s[0] % 32;
            Ok(
                match trick_mode_control {
                    0b000 => DsmTrickMode::FastForward {
                        field_id: trick_mode_data / 8,
                        intra_slice_refresh: (trick_mode_data / 4) % 2 == 1,
                        frequency_truncation: FrequencyTruncationCoefficientSelection::from_id(
                            trick_mode_data % 4,
                        ),
                    },
                    0b001 => DsmTrickMode::SlowMotion { rep_cntrl: trick_mode_control },
                    0b010 => DsmTrickMode::FreezeFrame {
                        field_id: trick_mode_data / 8,
                        reserved: trick_mode_data % 8,
                    },
                    0b011 => DsmTrickMode::FastReverse {
                        field_id: trick_mode_data / 8,
                        intra_slice_refresh: (trick_mode_data / 4) % 2 == 1,
                        frequency_truncation: FrequencyTruncationCoefficientSelection::from_id(
                            trick_mode_data % 4,
                        ),
                    },
                    0b100 => DsmTrickMode::SlowReverse { rep_cntrl: trick_mode_control },
                    _ => DsmTrickMode::Reserved { reserved: trick_mode_control },
                },
            )
        } else {
            Err(PesError::FieldNotPresent)
        }
    }

    fn dsm_trick_mode_end(&self) -> (r: usize)
        ensures
            r == ppc_dsm_trick_mode_end(self@),
    {
        self.es_rate_end() + if self.dsm_trick_mode_flag() {
            Self::DSM_TRICK_MODE_SIZE
        } else {
            0
        }
    }

    const ADDITIONAL_COPY_INFO_SIZE: usize = 1;

    /// Returns a 7-bit value containing private data relating to copyright information
    ///
    /// If the field is not present in the header, then `Err(PesError::FieldNotPresent)` is
    /// produced; if its marker bit is not set, `Err(PesError::MarkerBitNotSet)`.
    pub fn additional_copy_info(&self) -> (r: Result<u8, PesError>)
        ensures
            ({
                let b = self@[ppc_dsm_trick_mode_end(self@)];
                &&& !ppc_additional_copy_info_flag(self@) ==> r == Err::<u8, PesError>(PesError::FieldNotPresent)
                &&& ppc_additional_copy_info_flag(self@) && b < 128 ==> r == Err::<u8, PesError>(PesError::MarkerBitNotSet)
                &&& ppc_additional_copy_info_flag(self@) && b >= 128 ==> r == Ok::<u8, PesError>((b % 128) as u8)
            }),
    {
        proof {
            use_type_invariant(self);
        }
        if self.additional_copy_info_flag() {
            let s = self.header_slice(
                self.dsm_trick_mode_end(),
                self.dsm_trick_mode_end() + Self::ADDITIONAL_COPY_INFO_SIZE,
            )?;
            if s[0] < 128 {
                Err(PesError::MarkerBitNotSet)
            } else {
                Ok(s[0] % 128)
            }
        } else {
            Err(PesError::FieldNotPresent)
        }
    }

    fn additional_copy_info_end(&self) -> (r: usize)
        ensures
            r == ppc_additional_copy_info_end(self@),
    {
        self.dsm_trick_mode_end() + if self.additional_copy_info_flag() {
            Self::ADDITIONAL_COPY_INFO_SIZE
        } else {
            0
        }
    }

    const PREVIOUS_PES_PACKET_CRC_SIZE: usize = 2;

    /// returns a 16-bit _Cyclic Redundancy Check_ value for the PES packet data bytes that
    /// preceded this one.  This crate does not perform any CRC-checks based on this value.
    ///
    /// If the field is not present in the header, then `Err(PesError::FieldNotPresent)` is
    /// produced.
    pub fn previous_pes_packet_crc(&self) -> (r: Result<u16, PesError>)
        ensures
            ({
                let off = ppc_additional_copy_info_end(self@);
                &&& !ppc_crc_flag(self@) ==> r == Err::<u16, PesError>(PesError::FieldNotPresent)
                &&& ppc_crc_flag(self@) ==> r == Ok::<u16, PesError>((self@[off] * 256 + self@[off + 1]) as u16)
            }),
    {
        proof {
            use_type_invariant(self);
        }
        if self.pes_crc_flag() {
            let s = self.header_slice(
                self.additional_copy_info_end(),
                self.additional_copy_info_end() + Self::PREVIOUS_PES_PACKET_CRC_SIZE,
            )?;
            Ok(s[0] as u16 * 256 + s[1] as u16)
        } else {
            Err(PesError::FieldNotPresent)
        }
    }

    fn pes_crc_end(&self) -> (r: usize)
        ensures
            r == ppc_crc_end(self@),
    {
        self.additional_copy_info_end() + if self.pes_crc_flag() {
            Self::PREVIOUS_PES_PACKET_CRC_SIZE
        } else {
            0
        }
    }

    /// Returns the PES extension structure (the remaining header bytes) if present, or
    /// `Err(PesError::FieldNotPresent)` if not.
    pub fn pes_extension(&self) -> (r: Result<PesExtension<'buf>, PesError>)
        ensures
            !ppc_extension_flag(self@) ==> (r matches Err(e) && e == PesError::FieldNotPresent),
            ppc_extension_flag(self@) ==> (r matches Ok(x) && x@ == self@.subrange(
                ppc_crc_end(self@),
                ppc_header_end(self@),
            )),
    {
        proof {
            use_type_invariant(self);
        }
        if self.pes_extension_flag() {
            let s = self.header_slice(
                self.pes_crc_end(),
                self.pes_header_data_len() + Self::FIXED_HEADER_SIZE,
            )?;
            Ok(PesExtension { _buf: s })
        } else {
            Err(PesError::FieldNotPresent)
        }
    }

    /// Provides the portion of the PES payload that was in the same TS packet as the PES header
    ///
    /// **NB** the full PES payload is likely to be split across multiple TS packets, and
    /// implementors of `ElementaryStreamConsumer` must be prepared to accept the PES payload
    /// data split between the header and multiple subsequent calls to
    /// `ElementaryStreamConsumer::continue_packet()`
    pub fn payload(&self) -> (r: &'buf [u8])
        ensures
            r@ == self@.subrange(ppc_header_end(self@), self@.len() as int),
    {
        proof {
            use_type_invariant(self);
        }
        &self.buf[Self::FIXED_HEADER_SIZE + self.pes_header_data_len()..self.buf.len()]
    }
}

/// Which PES packets carry the optional PES header: all but those whose `stream_id` byte is
/// one that _ISO/IEC 13818-1_ lists as having none (`program_stream_map` 0xbc,
/// `padding_stream` 0xbe, `private_stream_2` 0xbf, `ECM_stream` 0xf0, `EMM_stream` 0xf1,
/// `DSMCC_stream` 0xf2, `ITU-T Rec. H.222.1 type E` 0xf8, `program_stream_directory` 0xff).  In
/// particular every audio (0xc0 to 0xdf) and video (0xe0 to 0xef) stream's packets carry it, so
/// that [`PesHeader::contents()`] gives `PesContents::Parsed` for them.
pub proof fn lemma_optional_header_by_stream_id(v: u8)
    ensures
        spec_stream_id_is_parsed(spec_stream_id(v)) <==> !(v == 0xbc || v == 0xbe || v == 0xbf
            || v == 0xf0 || v == 0xf1 || v == 0xf2 || v == 0xf8 || v == 0xff),
        0xc0 <= v <= 0xef ==> spec_stream_id_is_parsed(spec_stream_id(v)),
{
}

/// A filter with a PES packet in progress, given a packet of 188 bytes that continues it
/// (without `payload_unit_start_indicator`, its continuity counter following on) and carries a
/// payload, passes exactly that payload to `continue_packet()`: all the bytes after the 4-byte
/// packet header (`adaptation_field_control` 1), or after the header and the adaptation field
/// (`adaptation_field_control` 3, the adaptation field's length in byte 4), whether or not the
/// packet also has an adaptation field.  The PES packet stays in progress.
pub proof fn lemma_continuation_payload_passed_on(cc: Option<u8>, pk: Seq<u8>)
    requires
        pk.len() == 188,
        (pk[1] / 64) % 2 == 0,
        pes_continuous(cc, pk),
        (pk[3] / 16) % 4 == 1 || ((pk[3] / 16) % 4 == 3 && 5 + pk[4] < 188),
    ensures
        pes_step(PesState::Started, cc, pk) == (
            PesState::Started,
            seq![
                PesEvent::ContinuePacket(
                    pk.subrange(if (pk[3] / 16) % 4 == 1 { 4 } else { 5 + pk[4] }, 188),
                ),
            ],
        ),
{
    let ev = pes_step(PesState::Started, cc, pk).1;
    assert(ev =~= seq![
        PesEvent::ContinuePacket(
            pk.subrange(if (pk[3] / 16) % 4 == 1 { 4 } else { 5 + pk[4] }, 188),
        ),
    ]);
}

} // verus!
