//! Main types implementing the demultiplexer state-machine.
//!
//! Construct an instance of [`Demultiplex`] and feed it a succession of byte-slices containing
//! the Transport Stream data.
//!
//! Users of this crate are expected to provide their own implementations of,
//!
//!  - [`PacketFilter`] - for defining per-stream-type handling, typically as an enum whose
//!    variants wrap the filter types of this crate and of the application.
//!  - [`DemuxContext`] - to create specific `PacketFilter` instances for each type of
//!    sub-stream found within the Transport Stream data.
use crate::error::{DemuxError as ReportedError, ErrorSink};
use crate::packet;
use crate::packet::TransportScramblingControl;
use crate::psi;
use crate::psi::pat;
use crate::psi::pmt;
use crate::psi::pmt::PmtSection;
use crate::psi::pmt::StreamInfo;
use crate::psi::WholeSectionSyntaxPayloadParser;
use crate::StreamType;
use fixedbitset::FixedBitSet;
use std::marker;
use vstd::prelude::*;

verus! {

/// Trait to which `Demultiplex` delegates handling of subsets of Transport Stream packets.
///
/// A packet filter can collaborate with the owning `Demultiplex` instance via the `DemuxContext`
/// to which they will both be lent mutable access.  For example, by making entries in the
/// `FilterChangeset` owned by the `DemuxContext`, a `PacketFilter` implementation may alter
/// the handling of subsequent packets in the Transport Stream.
pub trait PacketFilter {
    /// The type of context-object used by the `Demultiplex` instance with which implementing
    /// `PacketFilters` will be collaborating (a [`DemuxContext`] implementation).
    type Ctx;

    /// How handling the packet with the bytes `pk` may change this filter (into `after`) and
    /// the context (from `ctx` into `ctx_after`).  Any change is allowed, unless an
    /// implementation says more.
    open spec fn consume_effect(&self, ctx: Self::Ctx, pk: Seq<u8>, after: &Self, ctx_after: Self::Ctx) -> bool {
        true
    }

    /// Implements filter-specific packet processing logic.
    fn consume(&mut self, ctx: &mut Self::Ctx, pk: &packet::Packet<'_>)
        ensures
            old(self).consume_effect(*old(ctx), pk@, final(self), *final(ctx)),
    ;
}

/// No-op implementation of `PacketFilter`.
///
/// Sometimes a Transport Stream will contain packets that you know you want to ignore.  This type
/// can be used when you have to register a filter for such packets with the demultiplexer.
pub struct NullPacketFilter<Ctx: DemuxContext> {
    phantom: marker::PhantomData<Ctx>,
}

impl<Ctx: DemuxContext> Default for NullPacketFilter<Ctx> {
    fn default() -> (r: NullPacketFilter<Ctx>) {
        NullPacketFilter { phantom: marker::PhantomData }
    }
}

impl<Ctx: DemuxContext> PacketFilter for NullPacketFilter<Ctx> {
    type Ctx = Ctx;

    fn consume(&mut self, _ctx: &mut Self::Ctx, _pk: &packet::Packet<'_>) {
        // ignore
    }
}

/// The filters held by the list `filters`, by PID value.
pub open spec fn filters_view<F>(filters: Seq<Option<F>>) -> Map<int, F> {
    Map::new(|p: int| 0 <= p < filters.len() && filters[p] is Some, |p: int| filters[p]->Some_0)
}

/// Growable list of filters (implementations of [`PacketFilter`]), indexed by
/// [`Pid`](packet::Pid).  Lookups produce an `Option`, and the result is `None` rather than a
/// panic when not found.
pub struct Filters<F: PacketFilter> {
    filters_by_pid: Vec<Option<F>>,
}

impl<F: PacketFilter> View for Filters<F> {
    type V = Map<int, F>;

    closed spec fn view(&self) -> Map<int, F> {
        filters_view(self.filters_by_pid@)
    }
}

impl<F: PacketFilter> Filters<F> {
    fn new() -> (r: Filters<F>)
        ensures
            r@ == Map::<int, F>::empty(),
    {
        let r = Filters { filters_by_pid: Vec::new() };
        assert(r@ =~= Map::<int, F>::empty());
        r
    }

    /// `true` when a filter is registered for the given PID.
    pub fn contains(&self, pid: packet::Pid) -> (r: bool)
        ensures
            r == self@.contains_key(pid@ as int),
    {
        let i = pid.as_usize();
        i < self.filters_by_pid.len() && self.filters_by_pid[i].is_some()
    }

    /// Registers the given filter for the given PID, in place of any filter registered for it
    /// before; the filters of the other PIDs stay.
    pub fn insert(&mut self, pid: packet::Pid, filter: F)
        ensures
            final(self)@ == old(self)@.insert(pid@ as int, filter),
    {
        let i = pid.as_usize();
        while self.filters_by_pid.len() <= i
            invariant
                i < 0x2000,
                self@ == old(self)@,
            decreases i + 1 - self.filters_by_pid.len(),
        {
            let ghost before = self.filters_by_pid@;
            self.filters_by_pid.push(None);
            assert(self@ =~= filters_view(before));
        }
        self.filters_by_pid.set(i, Some(filter));
        assert(self@ =~= old(self)@.insert(pid@ as int, filter));
    }

    /// Drops the filter registered for the given PID, if there is one; the filters of the other
    /// PIDs stay.
    pub fn remove(&mut self, pid: packet::Pid)
        ensures
            final(self)@ == old(self)@.remove(pid@ as int),
    {
        let i = pid.as_usize();
        if i < self.filters_by_pid.len() {
            self.filters_by_pid.set(i, None);
        }
        assert(self@ =~= old(self)@.remove(pid@ as int));
    }

    /// The filter registered for the given PID, if there is one, to be used in place; the
    /// filters of the other PIDs stay as they are.
    pub fn get(&mut self, pid: packet::Pid) -> (r: Option<&mut F>)
        ensures
            r is Some <==> old(self)@.contains_key(pid@ as int),
            r is Some ==> *r.unwrap() == old(self)@[pid@ as int] && final(self)@ == old(self)@.insert(
                pid@ as int,
                *final(r.unwrap()),
            ),
            r is None ==> final(self)@ == old(self)@,
    {
        let i = pid.as_usize();
        if i >= self.filters_by_pid.len() {
            None
        } else {
            self.filters_by_pid[i].as_mut()
        }
    }
}

impl<F: PacketFilter> Default for Filters<F> {
    /// No filters registered.
    fn default() -> (r: Filters<F>)
        ensures
            r@ == Map::<int, F>::empty(),
    {
        Filters::new()
    }
}

/// Represents the intention to either insert a new `PacketFilter` into the `Demultiplex` instance
/// or remove an old `PacketFilter` from the `Demultiplex` instance.
#[derive(Debug)]
pub enum FilterChange<F: PacketFilter> {
    /// Insert the given filter for the given `Pid`.
    Insert(packet::Pid, F),
    /// Remove any filter for the given `Pid`.
    Remove(packet::Pid),
}

/// The filters registered, by PID value, once the change `c` is applied to the filters `m`.
pub open spec fn change_filters<F: PacketFilter>(m: Map<int, F>, c: FilterChange<F>) -> Map<int, F> {
    match c {
        FilterChange::Insert(p, f) => m.insert(p@ as int, f),
        FilterChange::Remove(p) => m.remove(p@ as int),
    }
}

/// The filters registered, by PID value, once the changes `cs` are applied in order to the
/// filters `m`.
pub open spec fn apply_changes<F: PacketFilter>(m: Map<int, F>, cs: Seq<FilterChange<F>>) -> Map<int, F>
    decreases cs.len(),
{
    if cs.len() == 0 {
        m
    } else {
        apply_changes(change_filters(m, cs[0]), cs.subrange(1, cs.len() as int))
    }
}

impl<F: PacketFilter> FilterChange<F> {
    fn apply(self, filters: &mut Filters<F>)
        ensures
            final(filters)@ == change_filters(old(filters)@, self),
    {
        match self {
            FilterChange::Insert(pid, filter) => filters.insert(pid, filter),
            FilterChange::Remove(pid) => filters.remove(pid),
        };
    }
}

/// Owns a queue of [`FilterChange`] objects representing pending updates to the Pid handling of
/// the `Demultiplexer`.
///
/// These changes need to be queued since practically a `PacketFilter` implementation cannot be
/// allowed to remove itself from the owning `Demultiplex` instance while it is in the act of
/// filtering a packet.
///
/// The public interface allows items to be added to the queue, and the internal implementation of
/// `Demultiplex` will later remove them.
#[derive(Debug)]
pub struct FilterChangeset<F: PacketFilter> {
    updates: Vec<FilterChange<F>>,
}

impl<F: PacketFilter> View for FilterChangeset<F> {
    type V = Seq<FilterChange<F>>;

    closed spec fn view(&self) -> Seq<FilterChange<F>> {
        self.updates@
    }
}

impl<F: PacketFilter> Default for FilterChangeset<F> {
    fn default() -> (r: FilterChangeset<F>)
        ensures
            r@ == Seq::<FilterChange<F>>::empty(),
    {
        FilterChangeset { updates: Vec::new() }
    }
}

impl<F: PacketFilter> FilterChangeset<F> {
    /// Queue the insertion of the given `PacketFilter` for the given Pid, after the `Demultiplex`
    /// instance has finished handling the current packet.
    pub fn insert(&mut self, pid: packet::Pid, filter: F)
        ensures
            final(self)@ == old(self)@.push(FilterChange::Insert(pid, filter)),
    {
        self.updates.push(FilterChange::Insert(pid, filter))
    }

    /// Queue the removal of the existing `PacketFilter` for the given Pid, after the `Demultiplex`
    /// instance has finished handling the current packet.
    pub fn remove(&mut self, pid: packet::Pid)
        ensures
            final(self)@ == old(self)@.push(FilterChange::Remove(pid)),
    {
        self.updates.push(FilterChange::Remove(pid))
    }

    /// Applies the queued changes to the given filters, in the order they were queued, leaving
    /// the queue empty.
    fn apply(&mut self, filters: &mut Filters<F>)
        ensures
            final(self)@ == Seq::<FilterChange<F>>::empty(),
            final(filters)@ == apply_changes(old(filters)@, old(self)@),
    {
        let mut updates: Vec<FilterChange<F>> = Vec::new();
        std::mem::swap(&mut updates, &mut self.updates);
        let ghost all = updates@;
        let ghost m0 = filters@;
        let ghost mut n: int = 0;
        while updates.len() > 0
            invariant
                0 <= n <= all.len(),
                updates@ == all.subrange(n, all.len() as int),
                self.updates@.len() == 0,
                apply_changes(m0, all) == apply_changes(filters@, all.subrange(n, all.len() as int)),
            decreases updates@.len(),
        {
            let ghost before = filters@;
            let update = updates.remove(0);
            update.apply(filters);
            proof {
                assert(all.subrange(n, all.len() as int).subrange(1, all.len() - n) =~= all.subrange(
                    n + 1,
                    all.len() as int,
                ));
                n = n + 1;
            }
        }
        proof {
            assert(self@ =~= Seq::<FilterChange<F>>::empty());
        }
    }

    /// Are there any changes queued in this changeset?
    pub fn is_empty(&self) -> (r: bool)
        ensures
            r == (self@.len() == 0),
    {
        self.updates.len() == 0
    }

    /// The queued changes, in the order they were queued.
    pub fn into_updates(self) -> (r: Vec<FilterChange<F>>)
        ensures
            r@ == self@,
    {
        self.updates
    }
}

/// Request that may be submitted to a [`DemuxContext::construct()`] implementation.
#[derive(Debug)]
pub enum FilterRequest<'a, 'buf> {
    /// requests a filter implementation for handling a PID contained in the transport stream that
    /// was not announced via other means (PAT/PMT).
    ByPid(packet::Pid),
    /// requests a filter for the stream with the given details which has just been discovered
    /// within a Program Map Table section.
    ByStream {
        /// The `Pid` of the program containing the stream to be handled
        program_pid: packet::Pid,
        /// The type of the stream to be handled
        stream_type: StreamType,
        /// The full PmtSection defining the stream needing to he handled
        pmt: &'a PmtSection<'buf>,
        /// the PMT stream information for the specific stream being handled (which will be one
        /// of the values inside the `pmt` which is also provided.
        stream_info: &'a StreamInfo<'buf>,
    },
    /// Requests a filter implementation for handling Program Map Table sections
    Pmt {
        /// the `Pid` which contains the PMT
        pid: packet::Pid,
        /// the _program number_ of the program for which this will be the PMT
        program_number: u16,
    },
    /// requests a filter implementation to handle packets containing Network Information Table
    /// data
    Nit {
        /// The `Pid` of the packets which contain the NIT.
        pid: packet::Pid,
    },
}

/// Context shared between the `Dumultiplex` object and the `PacketFilter` instances
/// which customise its behavior.
///
/// This trait defines behaviour that the process of demultiplexing requires from the context
/// object, but an application has the opportunity to add further state to the type implementing
/// this trait, if desired.  Problems found in the stream are reported through the context's
/// [`ErrorSink`] implementation.
pub trait DemuxContext: ErrorSink + Sized {
    /// the type of `PacketFilter` which the `Demultiplex` object needs to use
    type F: PacketFilter<Ctx = Self>;

    /// The changes queued in the `FilterChangeset` this context holds, in order.  An
    /// implementation gives it as the view of that changeset; until it does, nothing is known of
    /// it.
    open spec fn changes(&self) -> Seq<FilterChange<Self::F>> {
        vstd::pervasive::arbitrary()
    }

    /// mutable reference to the `FilterChangeset` this context holds: the changes it holds are
    /// those of the context, before and after it is used.
    fn filter_changeset(&mut self) -> (r: &mut FilterChangeset<Self::F>)
        ensures
            r@ == old(self).changes(),
            final(self).changes() == final(r)@,
    ;

    /// How answering the request `req` with the filter `f` may change this context (into
    /// `after`).  Any change and any filter are allowed, unless an implementation says more.
    open spec fn construct_effect(&self, req: FilterRequest<'_, '_>, after: &Self, f: Self::F) -> bool {
        true
    }

    /// The application using this crate should provide an implementation of this method that
    /// returns an instance of `PacketFilter` implementing the application's desired handling for
    /// the given content.
    fn construct(&mut self, req: FilterRequest<'_, '_>) -> (r: Self::F)
        ensures
            old(self).construct_effect(req, final(self), r),
    ;
}

/// The bit set type of the `fixedbitset` crate, which the table processors use to keep the
/// PIDs for which they have registered filters; its contents are known only through the names
/// and wrappers below.
#[verifier::external_type_specification]
#[verifier::external_body]
pub struct ExFixedBitSet(FixedBitSet);

/// The indices of the bits enabled in a `FixedBitSet`.
pub uninterp spec fn bit_set_ones(s: FixedBitSet) -> Set<usize>;

/// The number of bits a `FixedBitSet` holds (the length it was created with).
pub uninterp spec fn bit_set_len(s: FixedBitSet) -> nat;

/// `FixedBitSet::with_capacity()`: a set of `bits` bits, none of them enabled.
#[verifier::external_body]
fn bit_set_with_capacity(bits: usize) -> (r: FixedBitSet)
    ensures
        bit_set_ones(r) == Set::<usize>::empty(),
        bit_set_len(r) == bits,
{
    FixedBitSet::with_capacity(bits)
}

/// `FixedBitSet::insert()`: enables the given bit, which must be within the set's length (the
/// method panics otherwise); the length is unchanged.
#[verifier::external_body]
fn bit_set_insert(s: &mut FixedBitSet, bit: usize)
    requires
        bit < bit_set_len(*old(s)),
    ensures
        bit_set_ones(*final(s)) == bit_set_ones(*old(s)).insert(bit),
        bit_set_len(*final(s)) == bit_set_len(*old(s)),
{
    s.insert(bit)
}

/// `FixedBitSet::difference()`, collected: the bits enabled in `a` but not in `b`, in ascending
/// order (the order in which the iterator yields them).
#[verifier::external_body]
fn bit_set_difference(a: &FixedBitSet, b: &FixedBitSet) -> (r: Vec<usize>)
    ensures
        r@.to_set() == bit_set_ones(*a).difference(bit_set_ones(*b)),
        forall|i: int, j: int| 0 <= i < j < r@.len() ==> r@[i] < r@[j],
{
    a.difference(b).collect()
}

/// A change to the demultiplexer's filters that a table processor has queued in the context's
/// [`FilterChangeset`], by PID value.
#[derive(Debug, Clone, Copy, PartialEq, Eq, Structural)]
pub enum RequestedChange {
    /// a filter built for [`FilterRequest::Pmt`] with these values is to be inserted
    InsertPmt {
        /// the PID of the program's PMT
        pid: u16,
        /// the program number
        program_number: u16,
    },
    /// a filter built for [`FilterRequest::Nit`] with this PID is to be inserted
    InsertNit {
        /// the PID of the NIT
        pid: u16,
    },
    /// a filter built for [`FilterRequest::ByStream`] for a stream of this type carried on this
    /// PID is to be inserted
    InsertStream {
        /// the elementary stream PID
        pid: u16,
        /// the stream type
        stream_type: u8,
    },
    /// the filter for this PID is to be removed
    Remove(u16),
}

/// A call that a table processor makes on the context: queuing a requested change (after
/// constructing its filter, for an insertion), or reporting a problem.
pub enum TableCall {
    /// the change is queued in the context's changeset
    Change(RequestedChange),
    /// a filter is constructed for a [`FilterRequest::ByStream`] request made by the PMT
    /// processor on `program_pid`, for the PMT section whose table data is `pmt` and the stream
    /// whose entry (followed by the rest of the stream loop) is `stream_info`, and its insertion
    /// for the stream's PID is queued
    Stream {
        /// the PID of the PMT sections
        program_pid: packet::Pid,
        /// the table data of the PMT section
        pmt: Ghost<Seq<u8>>,
        /// the stream's entry, as the request's `stream_info` views it
        stream_info: Ghost<Seq<u8>>,
    },
    /// the problem is reported to the context
    Problem(ReportedError),
}

/// The change queued by a [`TableCall::Stream`] call for the stream entry `si`: the insertion
/// of a filter for the stream's PID, built for its stream type.
pub open spec fn stream_change(si: Seq<u8>) -> RequestedChange {
    RequestedChange::InsertStream { pid: stream_pid(si) as u16, stream_type: si[0] }
}

/// The changes queued by the calls `cs`, in order.
pub open spec fn changes_of(cs: Seq<TableCall>) -> Seq<RequestedChange>
    decreases cs.len(),
{
    if cs.len() == 0 {
        Seq::empty()
    } else {
        match cs.last() {
            TableCall::Change(c) => changes_of(cs.drop_last()).push(c),
            TableCall::Stream { stream_info, .. } => changes_of(cs.drop_last()).push(
                stream_change(stream_info@),
            ),
            _ => changes_of(cs.drop_last()),
        }
    }
}

/// The problems reported by the calls `cs`, in order.
pub open spec fn problems_of(cs: Seq<TableCall>) -> Seq<ReportedError>
    decreases cs.len(),
{
    if cs.len() == 0 {
        Seq::empty()
    } else {
        match cs.last() {
            TableCall::Problem(e) => problems_of(cs.drop_last()).push(e),
            _ => problems_of(cs.drop_last()),
        }
    }
}

/// `true` when the context `c0` with the filter `f` constructed for the request `req`
/// becomes `c1` once that filter's insertion for `pid` is queued.
pub open spec fn constructed_and_queued<Ctx: DemuxContext>(c0: Ctx, req: FilterRequest, pid: u16, c1: Ctx) -> bool {
    exists|ca: Ctx, f: Ctx::F|
        #![trigger c0.construct_effect(req, &ca, f)]
        c0.construct_effect(req, &ca, f) && c1.changes() == ca.changes().push(
            FilterChange::Insert(packet::pid_of(pid), f),
        )
}

/// `true` when the context `c0` with a filter constructed for the [`FilterRequest::ByStream`]
/// request of the PMT processor on `program_pid`, for the PMT section table data `pmt` and the
/// stream entry `stream_info` (and for that entry's stream type), becomes `c1` once that
/// filter's insertion for the stream's PID is queued.
pub open spec fn stream_constructed_and_queued<Ctx: DemuxContext>(
    c0: Ctx,
    program_pid: packet::Pid,
    pmt: Seq<u8>,
    stream_info: Seq<u8>,
    c1: Ctx,
) -> bool {
    exists|req: FilterRequest|
        #![trigger constructed_and_queued(c0, req, stream_pid(stream_info) as u16, c1)]
        req matches FilterRequest::ByStream {
            program_pid: pp,
            stream_type: st,
            pmt: m,
            stream_info: si,
        } && pp == program_pid && st.0 == stream_info[0] && m@ == pmt && si@ == stream_info
            && constructed_and_queued(c0, req, stream_pid(stream_info) as u16, c1)
}

/// `true` when the call `call` changes the context from `c0` into `c1`: an insertion
/// constructs its filter with the context and queues it; a removal is queued; a problem is
/// reported.  A stream's insertion is made only by a [`TableCall::Stream`] call, which names
/// the request's data.
pub open spec fn table_call_step<Ctx: DemuxContext>(c0: Ctx, call: TableCall, c1: Ctx) -> bool {
    match call {
        TableCall::Problem(e) => c0.error_effect(e, &c1),
        TableCall::Change(RequestedChange::InsertPmt { pid, program_number }) => constructed_and_queued(
            c0,
            FilterRequest::Pmt { pid: packet::pid_of(pid), program_number },
            pid,
            c1,
        ),
        TableCall::Change(RequestedChange::InsertNit { pid }) => constructed_and_queued(
            c0,
            FilterRequest::Nit { pid: packet::pid_of(pid) },
            pid,
            c1,
        ),
        TableCall::Stream { program_pid, pmt, stream_info } => stream_constructed_and_queued(
            c0,
            program_pid,
            pmt@,
            stream_info@,
            c1,
        ),
        TableCall::Change(RequestedChange::InsertStream { .. }) => false,
        TableCall::Change(RequestedChange::Remove(pid)) => c1.changes() == c0.changes().push(
            FilterChange::Remove(packet::pid_of(pid)),
        ),
    }
}

/// `true` when the calls `cs`, made one after another, change the context from `c0` into `c1`.
pub open spec fn table_calls_run<Ctx: DemuxContext>(c0: Ctx, cs: Seq<TableCall>, c1: Ctx) -> bool
    decreases cs.len(),
{
    if cs.len() == 0 {
        c1 == c0
    } else {
        exists|c: Ctx|
            #![trigger table_call_step(c, cs.last(), c1)]
            table_calls_run(c0, cs.drop_last(), c) && table_call_step(c, cs.last(), c1)
    }
}

/// `true` when a table processor whose records of calls, requested changes and problems were
/// `calls0`, `requested0` and `reported0`, with the context `x0`, has them at `calls1`,
/// `requested1` and `reported1`, with the context `x1`, through calls it made: they extend its
/// record of calls, change the context as the context's own methods do, and hold the changes
/// it queued and the problems it reported, in order.
pub open spec fn table_called<Ctx: DemuxContext>(calls0: Seq<TableCall>, requested0: Seq<RequestedChange>, reported0: Seq<ReportedError>, x0: Ctx, calls1: Seq<TableCall>, requested1: Seq<RequestedChange>, reported1: Seq<ReportedError>, x1: Ctx) -> bool {
    let new = calls1.subrange(calls0.len() as int, calls1.len() as int);
    &&& calls0.len() <= calls1.len()
    &&& calls1.subrange(0, calls0.len() as int) == calls0
    &&& table_calls_run(x0, new, x1)
    &&& requested1 == requested0 + changes_of(new)
    &&& reported1 == reported0 + problems_of(new)
}

proof fn lemma_table_called_intro<Ctx: DemuxContext>(calls0: Seq<TableCall>, requested0: Seq<RequestedChange>, reported0: Seq<ReportedError>, x0: Ctx, new: Seq<TableCall>, x1: Ctx)
    requires
        table_calls_run(x0, new, x1),
    ensures
        table_called(
            calls0,
            requested0,
            reported0,
            x0,
            calls0 + new,
            requested0 + changes_of(new),
            reported0 + problems_of(new),
            x1,
        ),
{
    assert((calls0 + new).subrange(calls0.len() as int, (calls0 + new).len() as int) =~= new);
    assert((calls0 + new).subrange(0, calls0.len() as int) =~= calls0);
}

/// The calls that queue the changes `cs`, in order.
pub open spec fn change_calls(cs: Seq<RequestedChange>) -> Seq<TableCall> {
    cs.map_values(|c: RequestedChange| TableCall::Change(c))
}

/// The calls that report the problems `es`, in order.
pub open spec fn problem_calls(es: Seq<ReportedError>) -> Seq<TableCall> {
    es.map_values(|e: ReportedError| TableCall::Problem(e))
}

/// One more call extends a run of calls.
proof fn lemma_table_calls_push<Ctx: DemuxContext>(c0: Ctx, cs: Seq<TableCall>, c: Ctx, call: TableCall, c1: Ctx)
    requires
        table_calls_run(c0, cs, c),
        table_call_step(c, call, c1),
    ensures
        table_calls_run(c0, cs.push(call), c1),
{
    assert(cs.push(call).drop_last() =~= cs);
    assert(cs.push(call).last() == call);
}

proof fn lemma_table_calls_of_push(cs: Seq<TableCall>, call: TableCall)
    ensures
        changes_of(cs.push(call)) == (match call {
            TableCall::Change(c) => changes_of(cs).push(c),
            TableCall::Stream { stream_info, .. } => changes_of(cs).push(
                stream_change(stream_info@),
            ),
            _ => changes_of(cs),
        }),
        problems_of(cs.push(call)) == (match call {
            TableCall::Problem(e) => problems_of(cs).push(e),
            _ => problems_of(cs),
        }),
{
    assert(cs.push(call).drop_last() =~= cs);
    assert(cs.push(call).last() == call);
}

/// `true` when the values of `s` are in strictly ascending order.
pub open spec fn ascending(s: Seq<usize>) -> bool {
    forall|i: int, j: int| 0 <= i < j < s.len() ==> s[i] < s[j]
}

/// The removals of the filters for the PID values `pids`, in order.
pub open spec fn removals(pids: Seq<usize>) -> Seq<RequestedChange> {
    pids.map_values(|x: usize| RequestedChange::Remove(x as u16))
}

/// `true` when `added` is the `inserts` followed by the removal, in ascending PID order, of the
/// filters for the PID values in `outdated`.
pub open spec fn inserts_then_removals(added: Seq<RequestedChange>, inserts: Seq<RequestedChange>, outdated: Set<usize>) -> bool {
    exists|rem: Seq<usize>|
        #![trigger removals(rem)]
        ascending(rem) && rem.to_set() == outdated && added == inserts + removals(rem)
}

/// The data of the `i`th 4-byte entry of the PAT section data `s`.
pub open spec fn pat_entry(s: Seq<u8>, i: int) -> Seq<u8> {
    s.subrange(4 * i, 4 * i + 4)
}

/// The filter that the PAT entry `e` asks for: one for the program's PMT, or for the NIT when
/// the program number is zero.
pub open spec fn pat_entry_request(e: Seq<u8>) -> RequestedChange {
    if pat::spec_pat_program_number(e) == 0 {
        RequestedChange::InsertNit { pid: pat::spec_pat_pid(e) as u16 }
    } else {
        RequestedChange::InsertPmt {
            pid: pat::spec_pat_pid(e) as u16,
            program_number: pat::spec_pat_program_number(e) as u16,
        }
    }
}

/// The insertions asked for by the first `n` whole entries of the PAT section data `s`.
pub open spec fn pat_inserts(s: Seq<u8>, n: int) -> Seq<RequestedChange> {
    Seq::new(n as nat, |i: int| pat_entry_request(pat_entry(s, i)))
}

/// The PID values named by the first `n` whole entries of the PAT section data `s`.
pub open spec fn pat_pids(s: Seq<u8>, n: int) -> Set<usize> {
    Set::new(|x: usize| exists|i: int| 0 <= i < n && #[trigger] pat::spec_pat_pid(pat_entry(s, i)) == x)
}

/// `true` when the processor state `(registered, requested)` follows `(registered0,
/// requested0)` after a PAT section whose table data (after the headers, before the CRC) is
/// `s`: the filters for each entry's PID are inserted in order, then those registered before
/// but no longer listed are removed, and the entries' PIDs become the registered set.
pub open spec fn pat_table_update(registered0: Set<usize>, requested0: Seq<RequestedChange>, s: Seq<u8>, registered: Set<usize>, requested: Seq<RequestedChange>) -> bool {
    let n = (s.len() / 4) as int;
    &&& registered == pat_pids(s, n)
    &&& requested.len() >= requested0.len()
    &&& requested.subrange(0, requested0.len() as int) == requested0
    &&& inserts_then_removals(
        requested.subrange(requested0.len() as int, requested.len() as int),
        pat_inserts(s, n),
        registered0.difference(pat_pids(s, n)),
    )
}

/// `true` when the processor state `(registered, requested)` follows `(registered0,
/// requested0)` after the whole PAT section `data` with the given `table_id`: data too short to
/// hold the section headers and the CRC, or a `table_id` other than 0, changes nothing;
/// otherwise the table data between the 8 bytes of headers and the 4 bytes of CRC is handled as
/// [`pat_table_update`] describes.
pub open spec fn pat_section_update(registered0: Set<usize>, requested0: Seq<RequestedChange>, table_id: u8, data: Seq<u8>, registered: Set<usize>, requested: Seq<RequestedChange>) -> bool {
    if data.len() < 12 || table_id != 0 {
        registered == registered0 && requested == requested0
    } else {
        pat_table_update(registered0, requested0, data.subrange(8, data.len() - 4), registered, requested)
    }
}

/// The problems reported for the whole PAT section `data` with the given `table_id`: data too
/// short for the headers and the CRC; a `table_id` other than 0; or bytes left over after the
/// last whole entry.
pub open spec fn pat_section_errors(table_id: u8, data: Seq<u8>) -> Seq<ReportedError> {
    let pid = packet::pid_of(pat::PAT_PID);
    if data.len() < 12 {
        seq![ReportedError::SectionDataTooShort { pid, table_id, actual: data.len() as usize, minimum: 12 }]
    } else if table_id != 0 {
        seq![ReportedError::InvalidTableId { pid, expected: 0, actual: table_id }]
    } else if (data.len() - 12) % 4 != 0 {
        seq![
            ReportedError::PatEntryParseError {
                error: pat::PatError::NotEnoughData { actual: ((data.len() - 12) % 4) as usize },
            },
        ]
    } else {
        Seq::empty()
    }
}

/// The calls that the PAT processor makes for the table data `s`, in order, given the changes
/// `requested` that it queued for it: the insertions for the whole entries, in table order; the
/// problem of bytes left over after the last whole entry; then the removals.
pub open spec fn pat_table_calls(s: Seq<u8>, requested: Seq<RequestedChange>) -> Seq<TableCall> {
    let n = (s.len() / 4) as int;
    change_calls(requested.subrange(0, n)) + problem_calls(
        if s.len() % 4 != 0 {
            seq![
                ReportedError::PatEntryParseError {
                    error: pat::PatError::NotEnoughData { actual: (s.len() % 4) as usize },
                },
            ]
        } else {
            Seq::<ReportedError>::empty()
        },
    ) + change_calls(requested.subrange(n, requested.len() as int))
}

/// Processes PAT sections, asking for a filter for the PMT of each program listed (or for the
/// NIT) and for the removal of filters for programs no longer listed.
pub struct PatProcessor<Ctx: DemuxContext> {
    filters_registered: FixedBitSet,
    requested: Ghost<Seq<RequestedChange>>,
    reported: Ghost<Seq<ReportedError>>,
    calls: Ghost<Seq<TableCall>>,
    phantom: marker::PhantomData<Ctx>,
}

impl<Ctx: DemuxContext> PatProcessor<Ctx> {
    /// The problems reported to the context so far, in order.
    pub closed spec fn reported(&self) -> Seq<ReportedError> {
        self.reported@
    }

    /// The PIDs for which this processor has registered filters.
    pub closed spec fn registered(&self) -> Set<usize> {
        bit_set_ones(self.filters_registered)
    }

    /// The changes this processor has queued so far, in order.
    pub closed spec fn requested(&self) -> Seq<RequestedChange> {
        self.requested@
    }

    /// The calls this processor has made on the context so far, in order.
    pub closed spec fn table_calls(&self) -> Seq<TableCall> {
        self.calls@
    }

    #[verifier::type_invariant]
    spec fn inv(self) -> bool {
        &&& bit_set_len(self.filters_registered) == 0x2000
        &&& forall|x: usize| #[trigger] bit_set_ones(self.filters_registered).contains(x) ==> x < 0x2000
    }

    /// A processor with no filters registered.
    pub fn new() -> (r: PatProcessor<Ctx>)
        ensures
            r.registered() == Set::<usize>::empty(),
            r.requested() == Seq::<RequestedChange>::empty(),
            r.reported() == Seq::<ReportedError>::empty(),
            r.table_calls() == Seq::<TableCall>::empty(),
    {
        PatProcessor {
            filters_registered: bit_set_with_capacity(packet::Pid::PID_COUNT),
            requested: Ghost(Seq::empty()),
            reported: Ghost(Seq::empty()),
            calls: Ghost(Seq::empty()),
            phantom: marker::PhantomData,
        }
    }

    /// Handles a whole PAT section: section data too short to hold the headers and the CRC is
    /// reported as `SectionDataTooShort` and ignored; otherwise the table data between the
    /// headers and the CRC is handled as [`pat_section_update`] describes.
    pub fn pat_section(&mut self, ctx: &mut Ctx, header: &psi::SectionCommonHeader, data: &[u8])
        ensures
            pat_section_update(
                old(self).registered(),
                old(self).requested(),
                header.table_id,
                data@,
                final(self).registered(),
                final(self).requested(),
            ),
            final(self).reported() == old(self).reported() + pat_section_errors(header.table_id, data@),
            data@.len() >= 12 && header.table_id == 0 ==> final(self).table_calls() == old(
                self,
            ).table_calls() + pat_table_calls(
                data@.subrange(8, data@.len() - 4),
                final(self).requested().subrange(
                    old(self).requested().len() as int,
                    final(self).requested().len() as int,
                ),
            ),
            table_called(
                old(self).table_calls(),
                old(self).requested(),
                old(self).reported(),
                *old(ctx),
                final(self).table_calls(),
                final(self).requested(),
                final(self).reported(),
                *final(ctx),
            ),
    {
        proof {
            use_type_invariant(&*self);
        }
        let start = psi::SectionCommonHeader::SIZE + psi::TableSyntaxHeader::SIZE;
        if data.len() < start + psi::CRC_SIZE {
            let e = ReportedError::SectionDataTooShort {
                pid: packet::Pid::new(pat::PAT_PID),
                table_id: header.table_id,
                actual: data.len(),
                minimum: start + psi::CRC_SIZE,
            };
            let ghost x0 = *ctx;
            ctx.error(e);
            proof {
                self.reported@ = self.reported@.push(e);
                self.calls@ = self.calls@.push(TableCall::Problem(e));
                lemma_table_calls_push(x0, Seq::empty(), x0, TableCall::Problem(e), *ctx);
                lemma_table_calls_of_push(Seq::empty(), TableCall::Problem(e));
                let new = Seq::<TableCall>::empty().push(TableCall::Problem(e));
                lemma_table_called_intro(old(self).calls@, old(self).requested@, old(self).reported@, x0, new, *ctx);
                assert(old(self).calls@ + new =~= self.calls@);
                assert(old(self).requested@ + changes_of(new) =~= self.requested@);
                assert(old(self).reported@ + problems_of(new) =~= self.reported@);
            }
            return ;
        }
        let end = data.len() - psi::CRC_SIZE;
        let sect = pat::PatSection::new(&data[start..end]);
        assert(sect@ =~= data@.subrange(8, data@.len() - 4));
        self.new_table(ctx, header, &sect);
    }

    /// Handles a new PAT section: one with a `table_id` other than 0 is reported as
    /// `InvalidTableId` and ignored; each entry that is too short is reported as
    /// `PatEntryParseError`.
    fn new_table(&mut self, ctx: &mut Ctx, header: &psi::SectionCommonHeader, sect: &pat::PatSection<'_>)
        ensures
            header.table_id != 0 ==> final(self).registered() == old(self).registered()
                && final(self).requested() == old(self).requested(),
            header.table_id == 0 ==> pat_table_update(
                old(self).registered(),
                old(self).requested(),
                sect@,
                final(self).registered(),
                final(self).requested(),
            ),
            final(self).reported() == old(self).reported() + if header.table_id != 0 {
                seq![
                    ReportedError::InvalidTableId {
                        pid: packet::pid_of(pat::PAT_PID),
                        expected: 0,
                        actual: header.table_id,
                    },
                ]
            } else if sect@.len() % 4 != 0 {
                seq![
                    ReportedError::PatEntryParseError {
                        error: pat::PatError::NotEnoughData { actual: (sect@.len() % 4) as usize },
                    },
                ]
            } else {
                Seq::<ReportedError>::empty()
            },
            table_called(
                old(self).table_calls(),
                old(self).requested(),
                old(self).reported(),
                *old(ctx),
                final(self).table_calls(),
                final(self).requested(),
                final(self).reported(),
                *final(ctx),
            ),
            header.table_id == 0 ==> final(self).table_calls() == old(self).table_calls()
                + pat_table_calls(
                sect@,
                final(self).requested().subrange(
                    old(self).requested().len() as int,
                    final(self).requested().len() as int,
                ),
            ),
    {
        proof {
            use_type_invariant(&*self);
        }
        if 0x00 != header.table_id {
            let e = ReportedError::InvalidTableId {
                pid: packet::Pid::new(pat::PAT_PID),
                expected: 0,
                actual: header.table_id,
            };
            let ghost x0 = *ctx;
            ctx.error(e);
            proof {
                self.reported@ = self.reported@.push(e);
                self.calls@ = self.calls@.push(TableCall::Problem(e));
                lemma_table_calls_push(x0, Seq::empty(), x0, TableCall::Problem(e), *ctx);
                lemma_table_calls_of_push(Seq::empty(), TableCall::Problem(e));
                let new = Seq::<TableCall>::empty().push(TableCall::Problem(e));
                lemma_table_called_intro(old(self).calls@, old(self).requested@, old(self).reported@, x0, new, *ctx);
                assert(old(self).calls@ + new =~= self.calls@);
                assert(old(self).requested@ + changes_of(new) =~= self.requested@);
                assert(old(self).reported@ + problems_of(new) =~= self.reported@);
            }
            return ;
        }
        let ghost calls0 = self.calls@;
        let ghost x0 = *ctx;
        let ghost mut new: Seq<TableCall> = Seq::empty();
        proof {
            assert(new =~= change_calls(pat_inserts(sect@, 0)) + problem_calls(Seq::<ReportedError>::empty()));
            assert(self.calls@ =~= calls0 + new);
            assert(self.requested@ =~= self.requested@ + changes_of(new));
            assert(self.reported@ =~= self.reported@ + problems_of(new));
        }
        let ghost s = sect@;
        let ghost reg0 = bit_set_ones(self.filters_registered);
        let ghost req0 = self.requested@;
        let ghost e0 = self.reported@;
        let ghost n = (s.len() / 4) as int;
        let mut pids_seen = bit_set_with_capacity(packet::Pid::PID_COUNT);
        let programs = sect.programs();
        let mut i: usize = 0;
        while i < programs.len()
            invariant
                calls0 == old(self).calls@,
                x0 == *old(ctx),
                self.calls@ == calls0 + new,
                table_calls_run(x0, new, *ctx),
                self.requested@ == req0 + changes_of(new),
                self.reported@ == e0 + problems_of(new),
                pat::spec_pat_programs_ok(programs@, s),
                n == s.len() / 4,
                i <= programs.len(),
                bit_set_len(self.filters_registered) == 0x2000,
                bit_set_len(pids_seen) == 0x2000,
                bit_set_ones(pids_seen) == pat_pids(s, if i < n { i as int } else { n }),
                bit_set_ones(self.filters_registered) == reg0,
                forall|x: usize| #[trigger] reg0.contains(x) ==> x < 0x2000,
                self.requested@ == req0 + pat_inserts(s, if i < n { i as int } else { n }),
                new == change_calls(pat_inserts(s, if i < n { i as int } else { n })) + problem_calls(
                    if i > n {
                        seq![
                            ReportedError::PatEntryParseError {
                                error: pat::PatError::NotEnoughData { actual: (s.len() % 4) as usize },
                            },
                        ]
                    } else {
                        Seq::<ReportedError>::empty()
                    },
                ),
                self.reported@ == e0 + if i > n {
                    seq![
                        ReportedError::PatEntryParseError {
                            error: pat::PatError::NotEnoughData { actual: (s.len() % 4) as usize },
                        },
                    ]
                } else {
                    Seq::<ReportedError>::empty()
                },
            decreases programs.len() - i,
        {
            match &programs[i] {
                Ok(desc) => {
                    assert(i < n);
                    let pid = desc.pid();
                    let req = match desc {
                        pat::ProgramDescriptor::Program { program_number, pid } => FilterRequest::Pmt {
                            pid: *pid,
                            program_number: *program_number,
                        },
                        pat::ProgramDescriptor::Network { pid } => FilterRequest::Nit { pid: *pid },
                    };
                    let ghost greq = req;
                    let ghost cb = *ctx;
                    let filter = ctx.construct(req);
                    let ghost ca = *ctx;
                    ctx.filter_changeset().insert(pid, filter);
                    proof {
                        let rc = pat_entry_request(pat_entry(s, i as int));
                        packet::Pid::lemma_pid_of_view(pid);
                        assert(programs@[i as int] matches Ok(d) && pat::spec_program_descriptor_matches(d, pat_entry(s, i as int)));
                        assert(cb.construct_effect(greq, &ca, filter) && ctx.changes() == ca.changes().push(
                            FilterChange::Insert(packet::pid_of(pid@), filter),
                        ));
                        assert(table_call_step(cb, TableCall::Change(rc), *ctx));
                        lemma_table_calls_push(x0, new, cb, TableCall::Change(rc), *ctx);
                        lemma_table_calls_of_push(new, TableCall::Change(rc));
                        let nd = new;
                        new = new.push(TableCall::Change(rc));
                        self.calls@ = self.calls@.push(TableCall::Change(rc));
                        assert(pat_inserts(s, i + 1) =~= pat_inserts(s, i as int).push(rc));
                        assert(new =~= change_calls(pat_inserts(s, i + 1)) + problem_calls(
                            Seq::<ReportedError>::empty(),
                        ));
                    }
                    bit_set_insert(&mut pids_seen, pid.as_usize());
                    proof {
                        let e = pat_entry(s, i as int);
                        self.requested@ = self.requested@.push(pat_entry_request(e));
                        assert(pat_pids(s, i + 1) =~= pat_pids(s, i as int).insert(pid@ as usize));
                        assert(pat_inserts(s, i + 1) =~= pat_inserts(s, i as int).push(pat_entry_request(e)));
                        assert(req0 + pat_inserts(s, i + 1) =~= (req0 + pat_inserts(s, i as int)).push(pat_entry_request(e)));
                    }
                },
                Err(e) => {
                    let err = ReportedError::PatEntryParseError { error: *e };
                    let ghost cb = *ctx;
                    ctx.error(err);
                    proof {
                        lemma_table_calls_push(x0, new, cb, TableCall::Problem(err), *ctx);
                        lemma_table_calls_of_push(new, TableCall::Problem(err));
                        new = new.push(TableCall::Problem(err));
                        self.calls@ = self.calls@.push(TableCall::Problem(err));
                        assert(i == n);
                        assert(new =~= change_calls(pat_inserts(s, n)) + problem_calls(seq![err]));
                        self.reported@ = self.reported@.push(err);
                    }
                },
            }
            i = i + 1;
        }
        // remove filters for descriptors we've seen before that are not present in this updated
        // table,
        let outdated = bit_set_difference(&self.filters_registered, &pids_seen);
        let ghost mid = self.requested@;
        let ghost e1 = self.reported@;
        let ghost na = new;
        proof {
            assert(programs@.len() == n + if s.len() % 4 != 0 { 1int } else { 0int });
        }
        let mut j: usize = 0;
        while j < outdated.len()
            invariant
                j <= outdated.len(),
                forall|x: usize| #[trigger] outdated@.to_set().contains(x) ==> x < 0x2000,
                bit_set_ones(self.filters_registered) == reg0,
                bit_set_len(self.filters_registered) == 0x2000,
                forall|x: usize| #[trigger] reg0.contains(x) ==> x < 0x2000,
                self.requested@ == mid + removals(outdated@.subrange(0, j as int)),
                self.reported@ == e1,
                calls0 == old(self).calls@,
                x0 == *old(ctx),
                self.calls@ == calls0 + new,
                table_calls_run(x0, new, *ctx),
                self.requested@ == req0 + changes_of(new),
                self.reported@ == e0 + problems_of(new),
                new == na + change_calls(removals(outdated@.subrange(0, j as int))),
            decreases outdated.len() - j,
        {
            let x = outdated[j];
            assert(outdated@.to_set().contains(x));
            let ghost cb = *ctx;
            ctx.filter_changeset().remove(packet::Pid::new(x as u16));
            proof {
                let rc = RequestedChange::Remove(x as u16);
                assert(removals(outdated@.subrange(0, j + 1)) =~= removals(outdated@.subrange(0, j as int)).push(rc));
                assert(na + change_calls(removals(outdated@.subrange(0, j + 1))) =~= (na + change_calls(
                    removals(outdated@.subrange(0, j as int)),
                )).push(TableCall::Change(rc)));
                assert(table_call_step(cb, TableCall::Change(rc), *ctx));
                lemma_table_calls_push(x0, new, cb, TableCall::Change(rc), *ctx);
                lemma_table_calls_of_push(new, TableCall::Change(rc));
                new = new.push(TableCall::Change(rc));
                self.calls@ = self.calls@.push(TableCall::Change(rc));
                self.requested@ = self.requested@.push(RequestedChange::Remove(x as u16));
                assert(removals(outdated@.subrange(0, j + 1)) =~= removals(outdated@.subrange(0, j as int)).push(RequestedChange::Remove(x as u16)));
                assert(mid + removals(outdated@.subrange(0, j + 1)) =~= (mid + removals(outdated@.subrange(0, j as int))).push(RequestedChange::Remove(x as u16)));
            }
            j = j + 1;
        }
        proof {
            assert forall|x: usize| #[trigger] bit_set_ones(pids_seen).contains(x) implies x < 0x2000 by {
                let i = choose|i: int| 0 <= i < n && #[trigger] pat::spec_pat_pid(pat_entry(s, i)) == x;
                let e = pat_entry(s, i);
                assert(pat::spec_pat_pid(e) < 0x2000);
            }
        }
        self.filters_registered = pids_seen;
        proof {
            assert(outdated@.subrange(0, outdated@.len() as int) =~= outdated@);
            let added = self.requested@.subrange(req0.len() as int, self.requested@.len() as int);
            assert(added =~= pat_inserts(s, n) + removals(outdated@));
            assert(self.requested@.subrange(0, req0.len() as int) =~= req0);
        }
        proof {
            lemma_table_called_intro(calls0, req0, e0, x0, new, *ctx);
        }
    }
}

impl<Ctx: DemuxContext> Default for PatProcessor<Ctx> {
    fn default() -> (r: PatProcessor<Ctx>)
        ensures
            r.registered() == Set::<usize>::empty(),
            r.requested() == Seq::<RequestedChange>::empty(),
            r.reported() == Seq::<ReportedError>::empty(),
            r.table_calls() == Seq::<TableCall>::empty(),
    {
        PatProcessor::new()
    }
}

impl<Ctx: DemuxContext> psi::WholeSectionSyntaxPayloadParser for PatProcessor<Ctx> {
    type Context = Ctx;

    open spec fn section_effect(
        &self,
        ctx: Ctx,
        after: &Self,
        ctx_after: Ctx,
        header: psi::SectionCommonHeader,
        tsh: Seq<u8>,
        data: Seq<u8>,
    ) -> bool {
        &&& pat_section_update(
            self.registered(),
            self.requested(),
            header.table_id,
            data,
            after.registered(),
            after.requested(),
        )
        &&& after.reported() == self.reported() + pat_section_errors(header.table_id, data)
        &&& data.len() >= 12 && header.table_id == 0 ==> after.table_calls() == self.table_calls()
            + pat_table_calls(
            data.subrange(8, data.len() - 4),
            after.requested().subrange(self.requested().len() as int, after.requested().len() as int),
        )
        &&& table_called(
            self.table_calls(),
            self.requested(),
            self.reported(),
            ctx,
            after.table_calls(),
            after.requested(),
            after.reported(),
            ctx_after,
        )
    }

    fn section<'a>(
        &mut self,
        ctx: &mut Self::Context,
        header: &psi::SectionCommonHeader,
        _table_syntax_header: &psi::TableSyntaxHeader<'a>,
        data: &'a [u8],
    )
        ensures
            pat_section_update(
                old(self).registered(),
                old(self).requested(),
                header.table_id,
                data@,
                final(self).registered(),
                final(self).requested(),
            ),
            final(self).reported() == old(self).reported() + pat_section_errors(header.table_id, data@),
    {
        self.pat_section(ctx, header, data)
    }

    /// A table processor holds no in-progress state: the filters it has registered stay, so
    /// that the next table is compared against them.
    fn reset(&mut self) {
    }
}

/// The entries of the stream loop of the PMT section data `s` (after the fixed fields and the
/// program descriptors), in order.
pub open spec fn pmt_streams(s: Seq<u8>) -> Seq<Seq<u8>> {
    let end = 4 + pmt::spec_program_info_length(s);
    if end > s.len() {
        Seq::empty()
    } else {
        pmt::spec_stream_infos(s.subrange(end, s.len() as int))
    }
}

/// The 13-bit `elementary_PID` of the PMT stream entry `si`.
pub open spec fn stream_pid(si: Seq<u8>) -> int {
    (si[1] % 32) * 256 + si[2]
}

/// The insertions asked for by the first `n` of the PMT stream entries `ss`: a filter for each
/// stream's PID, built for its stream type.
pub open spec fn pmt_inserts(ss: Seq<Seq<u8>>, n: int) -> Seq<RequestedChange> {
    Seq::new(
        n as nat,
        |i: int| RequestedChange::InsertStream { pid: stream_pid(ss[i]) as u16, stream_type: ss[i][0] },
    )
}

/// The elementary PID values of the first `n` of the PMT stream entries `ss`.
pub open spec fn pmt_pids(ss: Seq<Seq<u8>>, n: int) -> Set<usize> {
    Set::new(|x: usize| exists|i: int| 0 <= i < n && #[trigger] stream_pid(ss[i]) == x)
}

/// The calls that the PMT processor on `program_pid` makes for the first `n` stream entries of
/// the PMT section table data `s`, in table order: for each, a filter is constructed for the
/// stream and its insertion queued.
pub open spec fn pmt_stream_calls(program_pid: packet::Pid, s: Seq<u8>, n: int) -> Seq<TableCall> {
    Seq::new(
        n as nat,
        |i: int|
            TableCall::Stream {
                program_pid,
                pmt: Ghost(s),
                stream_info: Ghost(pmt_streams(s)[i]),
            },
    )
}

/// The calls that the PMT processor on `program_pid` makes for the table data `s`, in order,
/// given the changes `requested` that it queued for it: those for its stream entries, in table
/// order, then the removals.
pub open spec fn pmt_table_calls(program_pid: packet::Pid, s: Seq<u8>, requested: Seq<RequestedChange>) -> Seq<TableCall> {
    let n = pmt_streams(s).len() as int;
    pmt_stream_calls(program_pid, s, n) + change_calls(requested.subrange(n, requested.len() as int))
}

/// `true` when the processor state `(registered, requested)` follows `(registered0,
/// requested0)` after a PMT section whose table data (after the headers, before the CRC) is
/// `s`: the filters for each stream's PID are inserted in order, then those registered before
/// but no longer listed are removed, and the streams' PIDs become the registered set.
pub open spec fn pmt_table_update(registered0: Set<usize>, requested0: Seq<RequestedChange>, s: Seq<u8>, registered: Set<usize>, requested: Seq<RequestedChange>) -> bool {
    let ss = pmt_streams(s);
    &&& registered == pmt_pids(ss, ss.len() as int)
    &&& requested.len() >= requested0.len()
    &&& requested.subrange(0, requested0.len() as int) == requested0
    &&& inserts_then_removals(
        requested.subrange(requested0.len() as int, requested.len() as int),
        pmt_inserts(ss, ss.len() as int),
        registered0.difference(pmt_pids(ss, ss.len() as int)),
    )
}

/// `true` when the processor state `(registered, requested)` follows `(registered0,
/// requested0)` after the whole PMT section `data` with the given `table_id`: data too short to
/// hold the section headers, the 4 bytes of fixed PMT fields and the CRC, or a `table_id` other
/// than 2, changes nothing; otherwise the table data between the 8 bytes of headers and the 4
/// bytes of CRC is handled as [`pmt_table_update`] describes.
pub open spec fn pmt_section_update(registered0: Set<usize>, requested0: Seq<RequestedChange>, table_id: u8, data: Seq<u8>, registered: Set<usize>, requested: Seq<RequestedChange>) -> bool {
    if data.len() < 16 || table_id != 2 {
        registered == registered0 && requested == requested0
    } else {
        pmt_table_update(registered0, requested0, data.subrange(8, data.len() - 4), registered, requested)
    }
}

/// The problems reported for the whole PMT section `data` with the given `table_id`, received
/// on `pid`: data too short for the headers and the CRC; table data too short for the 4 bytes of
/// fixed PMT fields; or a `table_id` other than 2.
pub open spec fn pmt_section_errors(pid: packet::Pid, table_id: u8, data: Seq<u8>) -> Seq<ReportedError> {
    if data.len() < 12 {
        seq![ReportedError::SectionDataTooShort { pid, table_id, actual: data.len() as usize, minimum: 12 }]
    } else if data.len() < 16 {
        seq![ReportedError::PmtParseError { pid, actual: (data.len() - 12) as usize }]
    } else if table_id != 2 {
        seq![ReportedError::InvalidTableId { pid, expected: 2, actual: table_id }]
    } else {
        Seq::empty()
    }
}

/// Processes the PMT sections of one program, asking for a filter for each of its elementary
/// streams and for the removal of filters for streams no longer listed.
pub struct PmtProcessor<Ctx: DemuxContext> {
    pid: packet::Pid,
    program_number: u16,
    filters_registered: FixedBitSet,
    requested: Ghost<Seq<RequestedChange>>,
    reported: Ghost<Seq<ReportedError>>,
    calls: Ghost<Seq<TableCall>>,
    phantom: marker::PhantomData<Ctx>,
}

impl<Ctx: DemuxContext> PmtProcessor<Ctx> {
    /// The problems reported to the context so far, in order.
    pub closed spec fn reported(&self) -> Seq<ReportedError> {
        self.reported@
    }

    /// The PIDs for which this processor has registered filters.
    pub closed spec fn registered(&self) -> Set<usize> {
        bit_set_ones(self.filters_registered)
    }

    /// The changes this processor has queued so far, in order.
    pub closed spec fn requested(&self) -> Seq<RequestedChange> {
        self.requested@
    }

    /// The calls this processor has made on the context so far, in order.
    pub closed spec fn table_calls(&self) -> Seq<TableCall> {
        self.calls@
    }

    /// The PID of the PMT sections processed.
    pub closed spec fn pid(&self) -> packet::Pid {
        self.pid
    }

    /// The program number of the program described.
    pub closed spec fn program_number(&self) -> u16 {
        self.program_number
    }

    #[verifier::type_invariant]
    spec fn inv(self) -> bool {
        &&& bit_set_len(self.filters_registered) == 0x2000
        &&& forall|x: usize| #[trigger] bit_set_ones(self.filters_registered).contains(x) ==> x < 0x2000
    }

    /// A processor for the PMT sections on the given PID, for the given program, with no filters
    /// registered.
    pub fn new(pid: packet::Pid, program_number: u16) -> (r: PmtProcessor<Ctx>)
        ensures
            r.pid() == pid,
            r.program_number() == program_number,
            r.registered() == Set::<usize>::empty(),
            r.requested() == Seq::<RequestedChange>::empty(),
            r.reported() == Seq::<ReportedError>::empty(),
            r.table_calls() == Seq::<TableCall>::empty(),
    {
        PmtProcessor {
            pid,
            program_number,
            filters_registered: bit_set_with_capacity(packet::Pid::PID_COUNT),
            requested: Ghost(Seq::empty()),
            reported: Ghost(Seq::empty()),
            calls: Ghost(Seq::empty()),
            phantom: marker::PhantomData,
        }
    }

    /// Handles a whole PMT section: section data too short to hold the headers and the CRC is
    /// reported as `SectionDataTooShort`, and table data too short for the PMT's fixed fields as
    /// `PmtParseError`, and both are ignored; otherwise the section is handled as
    /// [`pmt_section_update`] describes.
    pub fn pmt_section(&mut self, ctx: &mut Ctx, header: &psi::SectionCommonHeader, data: &[u8])
        ensures
            final(self).pid() == old(self).pid(),
            final(self).program_number() == old(self).program_number(),
            pmt_section_update(
                old(self).registered(),
                old(self).requested(),
                header.table_id,
                data@,
                final(self).registered(),
                final(self).requested(),
            ),
            final(self).reported() == old(self).reported() + pmt_section_errors(
                old(self).pid(),
                header.table_id,
                data@,
            ),
            data@.len() >= 16 && header.table_id == 2 ==> final(self).table_calls() == old(
                self,
            ).table_calls() + pmt_table_calls(
                old(self).pid(),
                data@.subrange(8, data@.len() - 4),
                final(self).requested().subrange(
                    old(self).requested().len() as int,
                    final(self).requested().len() as int,
                ),
            ),
            table_called(
                old(self).table_calls(),
                old(self).requested(),
                old(self).reported(),
                *old(ctx),
                final(self).table_calls(),
                final(self).requested(),
                final(self).reported(),
                *final(ctx),
            ),
    {
        proof {
            use_type_invariant(&*self);
        }
        let start = psi::SectionCommonHeader::SIZE + psi::TableSyntaxHeader::SIZE;
        if data.len() < start + psi::CRC_SIZE {
            let e = ReportedError::SectionDataTooShort {
                pid: self.pid,
                table_id: header.table_id,
                actual: data.len(),
                minimum: start + psi::CRC_SIZE,
            };
            let ghost x0 = *ctx;
            ctx.error(e);
            proof {
                self.reported@ = self.reported@.push(e);
                self.calls@ = self.calls@.push(TableCall::Problem(e));
                lemma_table_calls_push(x0, Seq::empty(), x0, TableCall::Problem(e), *ctx);
                lemma_table_calls_of_push(Seq::empty(), TableCall::Problem(e));
                let new = Seq::<TableCall>::empty().push(TableCall::Problem(e));
                lemma_table_called_intro(old(self).calls@, old(self).requested@, old(self).reported@, x0, new, *ctx);
                assert(old(self).calls@ + new =~= self.calls@);
                assert(old(self).requested@ + changes_of(new) =~= self.requested@);
                assert(old(self).reported@ + problems_of(new) =~= self.reported@);
            }
            return ;
        }
        let end = data.len() - psi::CRC_SIZE;
        match PmtSection::from_bytes(&data[start..end]) {
            Ok(sect) => {
                assert(sect@ =~= data@.subrange(8, data@.len() - 4));
                self.new_table(ctx, header, &sect)
            },
            Err(_) => {
                let e = ReportedError::PmtParseError { pid: self.pid, actual: end - start };
                let ghost x0 = *ctx;
                ctx.error(e);
                proof {
                    self.reported@ = self.reported@.push(e);
                self.calls@ = self.calls@.push(TableCall::Problem(e));
                lemma_table_calls_push(x0, Seq::empty(), x0, TableCall::Problem(e), *ctx);
                lemma_table_calls_of_push(Seq::empty(), TableCall::Problem(e));
                let new = Seq::<TableCall>::empty().push(TableCall::Problem(e));
                lemma_table_called_intro(old(self).calls@, old(self).requested@, old(self).reported@, x0, new, *ctx);
                assert(old(self).calls@ + new =~= self.calls@);
                assert(old(self).requested@ + changes_of(new) =~= self.requested@);
                assert(old(self).reported@ + problems_of(new) =~= self.reported@);

                }
            },
        }
    }

    /// Handles a new PMT section: one with a `table_id` other than 2 is reported as
    /// `InvalidTableId` and ignored.
    fn new_table(&mut self, ctx: &mut Ctx, header: &psi::SectionCommonHeader, sect: &PmtSection<'_>)
        ensures
            final(self).pid() == old(self).pid(),
            final(self).program_number() == old(self).program_number(),
            header.table_id != 2 ==> final(self).registered() == old(self).registered()
                && final(self).requested() == old(self).requested(),
            header.table_id == 2 ==> pmt_table_update(
                old(self).registered(),
                old(self).requested(),
                sect@,
                final(self).registered(),
                final(self).requested(),
            ),
            header.table_id == 2 ==> final(self).table_calls() == old(self).table_calls()
                + pmt_table_calls(
                old(self).pid(),
                sect@,
                final(self).requested().subrange(
                    old(self).requested().len() as int,
                    final(self).requested().len() as int,
                ),
            ),
            final(self).reported() == old(self).reported() + if header.table_id != 2 {
                seq![
                    ReportedError::InvalidTableId {
                        pid: old(self).pid(),
                        expected: 2,
                        actual: header.table_id,
                    },
                ]
            } else {
                Seq::<ReportedError>::empty()
            },
            table_called(
                old(self).table_calls(),
                old(self).requested(),
                old(self).reported(),
                *old(ctx),
                final(self).table_calls(),
                final(self).requested(),
                final(self).reported(),
                *final(ctx),
            ),
    {
        proof {
            use_type_invariant(&*self);
        }
        if 0x02 != header.table_id {
            let e = ReportedError::InvalidTableId {
                pid: self.pid,
                expected: 0x02,
                actual: header.table_id,
            };
            let ghost x0 = *ctx;
            ctx.error(e);
            proof {
                self.reported@ = self.reported@.push(e);
                self.calls@ = self.calls@.push(TableCall::Problem(e));
                lemma_table_calls_push(x0, Seq::empty(), x0, TableCall::Problem(e), *ctx);
                lemma_table_calls_of_push(Seq::empty(), TableCall::Problem(e));
                let new = Seq::<TableCall>::empty().push(TableCall::Problem(e));
                lemma_table_called_intro(old(self).calls@, old(self).requested@, old(self).reported@, x0, new, *ctx);
                assert(old(self).calls@ + new =~= self.calls@);
                assert(old(self).requested@ + changes_of(new) =~= self.requested@);
                assert(old(self).reported@ + problems_of(new) =~= self.reported@);
            }
            return ;
        }
        let ghost calls0 = self.calls@;
        let ghost x0 = *ctx;
        let ghost e0 = self.reported@;
        let ghost mut new: Seq<TableCall> = Seq::empty();
        proof {
            assert(self.calls@ =~= calls0 + new);
            assert(self.requested@ =~= self.requested@ + changes_of(new));
            assert(self.reported@ =~= self.reported@ + problems_of(new));
        }
        let ghost ss = pmt_streams(sect@);
        let ghost reg0 = bit_set_ones(self.filters_registered);
        let ghost req0 = self.requested@;
        let mut pids_seen = bit_set_with_capacity(packet::Pid::PID_COUNT);
        let streams = sect.streams();
        let mut i: usize = 0;
        while i < streams.len()
            invariant
                streams@.len() == ss.len(),
                forall|k: int| 0 <= k < streams@.len() ==> (#[trigger] streams@[k])@ == ss[k],
                i <= streams.len(),
                bit_set_len(self.filters_registered) == 0x2000,
                bit_set_len(pids_seen) == 0x2000,
                bit_set_ones(pids_seen) == pmt_pids(ss, i as int),
                bit_set_ones(self.filters_registered) == reg0,
                forall|x: usize| #[trigger] reg0.contains(x) ==> x < 0x2000,
                self.requested@ == req0 + pmt_inserts(ss, i as int),
                ss == pmt_streams(sect@),
                new == pmt_stream_calls(self.pid, sect@, i as int),
                self.pid == old(self).pid,
                self.program_number == old(self).program_number,
                self.reported == old(self).reported,
                calls0 == old(self).calls@,
                x0 == *old(ctx),
                e0 == old(self).reported@,
                self.calls@ == calls0 + new,
                table_calls_run(x0, new, *ctx),
                self.requested@ == old(self).requested@ + changes_of(new),
                self.reported@ == e0 + problems_of(new),
            decreases streams.len() - i,
        {
            let stream_info = &streams[i];
            let pid = stream_info.elementary_pid();
            let stream_type = stream_info.stream_type();
            let req = FilterRequest::ByStream {
                program_pid: self.pid,
                stream_type,
                pmt: sect,
                stream_info,
            };
            let ghost greq = req;
            let ghost cb = *ctx;
            let filter = ctx.construct(req);
            let ghost ca = *ctx;
            ctx.filter_changeset().insert(pid, filter);
            proof {
                let call = TableCall::Stream {
                    program_pid: self.pid,
                    pmt: Ghost(sect@),
                    stream_info: Ghost(ss[i as int]),
                };
                assert(streams@[i as int]@ == ss[i as int]);
                packet::Pid::lemma_pid_of_view(pid);
                assert(stream_pid(ss[i as int]) == pid@);
                assert(cb.construct_effect(greq, &ca, filter) && ctx.changes() == ca.changes().push(
                    FilterChange::Insert(packet::pid_of(pid@), filter),
                ));
                assert(constructed_and_queued(cb, greq, stream_pid(ss[i as int]) as u16, *ctx));
                assert(stream_constructed_and_queued(cb, self.pid, sect@, ss[i as int], *ctx));
                assert(table_call_step(cb, call, *ctx));
                lemma_table_calls_push(x0, new, cb, call, *ctx);
                lemma_table_calls_of_push(new, call);
                new = new.push(call);
                self.calls@ = self.calls@.push(call);
                assert(pmt_stream_calls(self.pid, sect@, i + 1) =~= pmt_stream_calls(
                    self.pid,
                    sect@,
                    i as int,
                ).push(call));
            }
            bit_set_insert(&mut pids_seen, pid.as_usize());
            proof {
                assert(streams@[i as int]@ == ss[i as int]);
                assert(stream_pid(ss[i as int]) == pid@);
                let c = RequestedChange::InsertStream { pid: pid@, stream_type: stream_type.0 };
                self.requested@ = self.requested@.push(c);
                assert(pmt_pids(ss, i + 1) =~= pmt_pids(ss, i as int).insert(pid@ as usize));
                assert(pmt_inserts(ss, i + 1) =~= pmt_inserts(ss, i as int).push(c));
                assert(req0 + pmt_inserts(ss, i + 1) =~= (req0 + pmt_inserts(ss, i as int)).push(c));
            }
            i = i + 1;
        }
        // remove filters for streams we've seen before that are not present in this updated
        // table,
        let outdated = bit_set_difference(&self.filters_registered, &pids_seen);
        let ghost mid = self.requested@;
        let mut j: usize = 0;
        while j < outdated.len()
            invariant
                j <= outdated.len(),
                forall|x: usize| #[trigger] outdated@.to_set().contains(x) ==> x < 0x2000,
                bit_set_ones(self.filters_registered) == reg0,
                bit_set_len(self.filters_registered) == 0x2000,
                forall|x: usize| #[trigger] reg0.contains(x) ==> x < 0x2000,
                self.requested@ == mid + removals(outdated@.subrange(0, j as int)),
                mid == req0 + pmt_inserts(ss, ss.len() as int),
                ss == pmt_streams(sect@),
                new == pmt_stream_calls(self.pid, sect@, ss.len() as int) + change_calls(
                    removals(outdated@.subrange(0, j as int)),
                ),
                self.pid == old(self).pid,
                self.program_number == old(self).program_number,
                self.reported == old(self).reported,
                calls0 == old(self).calls@,
                x0 == *old(ctx),
                e0 == old(self).reported@,
                self.calls@ == calls0 + new,
                table_calls_run(x0, new, *ctx),
                self.requested@ == old(self).requested@ + changes_of(new),
                self.reported@ == e0 + problems_of(new),
            decreases outdated.len() - j,
        {
            let x = outdated[j];
            assert(outdated@.to_set().contains(x));
            let ghost cb = *ctx;
            ctx.filter_changeset().remove(packet::Pid::new(x as u16));
            proof {
                let rc = RequestedChange::Remove(x as u16);
                assert(table_call_step(cb, TableCall::Change(rc), *ctx));
                lemma_table_calls_push(x0, new, cb, TableCall::Change(rc), *ctx);
                lemma_table_calls_of_push(new, TableCall::Change(rc));
                new = new.push(TableCall::Change(rc));
                self.calls@ = self.calls@.push(TableCall::Change(rc));
                self.requested@ = self.requested@.push(RequestedChange::Remove(x as u16));
                assert(removals(outdated@.subrange(0, j + 1)) =~= removals(outdated@.subrange(0, j as int)).push(RequestedChange::Remove(x as u16)));
                assert(mid + removals(outdated@.subrange(0, j + 1)) =~= (mid + removals(outdated@.subrange(0, j as int))).push(RequestedChange::Remove(x as u16)));
                assert(pmt_stream_calls(self.pid, sect@, ss.len() as int) + change_calls(
                    removals(outdated@.subrange(0, j + 1)),
                ) =~= (pmt_stream_calls(self.pid, sect@, ss.len() as int) + change_calls(
                    removals(outdated@.subrange(0, j as int)),
                )).push(TableCall::Change(rc)));
            }
            j = j + 1;
        }
        proof {
            assert forall|x: usize| #[trigger] bit_set_ones(pids_seen).contains(x) implies x < 0x2000 by {
                let k = choose|k: int| 0 <= k < ss.len() && #[trigger] stream_pid(ss[k]) == x;
                assert(streams@[k]@ == ss[k]);
            }
        }
        self.filters_registered = pids_seen;
        proof {
            assert(outdated@.subrange(0, outdated@.len() as int) =~= outdated@);
            let added = self.requested@.subrange(req0.len() as int, self.requested@.len() as int);
            assert(added =~= pmt_inserts(ss, ss.len() as int) + removals(outdated@));
            assert(self.requested@.subrange(0, req0.len() as int) =~= req0);
            assert(added.subrange(ss.len() as int, added.len() as int) =~= removals(outdated@));
        }
        proof {
            lemma_table_called_intro(calls0, old(self).requested@, e0, x0, new, *ctx);
        }
    }
}

impl<Ctx: DemuxContext> psi::WholeSectionSyntaxPayloadParser for PmtProcessor<Ctx> {
    type Context = Ctx;

    open spec fn section_effect(
        &self,
        ctx: Ctx,
        after: &Self,
        ctx_after: Ctx,
        header: psi::SectionCommonHeader,
        tsh: Seq<u8>,
        data: Seq<u8>,
    ) -> bool {
        &&& after.pid() == self.pid()
        &&& after.program_number() == self.program_number()
        &&& pmt_section_update(
            self.registered(),
            self.requested(),
            header.table_id,
            data,
            after.registered(),
            after.requested(),
        )
        &&& after.reported() == self.reported() + pmt_section_errors(self.pid(), header.table_id, data)
        &&& data.len() >= 16 && header.table_id == 2 ==> after.table_calls() == self.table_calls()
            + pmt_table_calls(
            self.pid(),
            data.subrange(8, data.len() - 4),
            after.requested().subrange(self.requested().len() as int, after.requested().len() as int),
        )
        &&& table_called(
            self.table_calls(),
            self.requested(),
            self.reported(),
            ctx,
            after.table_calls(),
            after.requested(),
            after.reported(),
            ctx_after,
        )
    }

    fn section<'a>(
        &mut self,
        ctx: &mut Self::Context,
        header: &psi::SectionCommonHeader,
        _table_syntax_header: &psi::TableSyntaxHeader<'a>,
        data: &'a [u8],
    )
        ensures
            final(self).pid() == old(self).pid(),
            final(self).program_number() == old(self).program_number(),
            pmt_section_update(
                old(self).registered(),
                old(self).requested(),
                header.table_id,
                data@,
                final(self).registered(),
                final(self).requested(),
            ),
            final(self).reported() == old(self).reported() + pmt_section_errors(
                old(self).pid(),
                header.table_id,
                data@,
            ),
    {
        self.pmt_section(ctx, header, data)
    }

    /// A table processor holds no in-progress state: the filters it has registered stay, so
    /// that the next table is compared against them.
    fn reset(&mut self) {
    }
}

/// The parsers to which the PAT and PMT filters deliver whole sections: sections repeating the
/// last version are dropped, and sections failing the CRC check are dropped, before the table
/// processor sees them.
pub type SectionChain<Proc> = psi::DedupSectionSyntaxPayloadParser<
    psi::CrcCheckWholeSectionSyntaxPayloadParser<Proc>,
>;

/// The chain of section handling shared by the PAT and PMT filters: whole sections are framed
/// from packets and delivered to a [`SectionChain`].
pub type PacketFilterConsumer<Proc> = psi::SectionSyntaxFramer<SectionChain<Proc>>;

/// A PAT section that gets through the chain of a PAT filter to its processor (its version is
/// not the last one seen, its CRC is correct) with the `table_id` 0 changes the processor as
/// [`pat_table_update`] describes and the context exactly as the processor's calls for the
/// section's table data do, in order: for each program listed, a filter for its PMT (or for the
/// NIT) is constructed and its insertion queued; then the removals of the filters for programs
/// no longer listed are queued.
pub proof fn lemma_pat_chain_section<Ctx: DemuxContext>(
    p0: SectionChain<PatProcessor<Ctx>>,
    x0: Ctx,
    p1: SectionChain<PatProcessor<Ctx>>,
    x1: Ctx,
    header: psi::SectionCommonHeader,
    tsh: Seq<u8>,
    data: Seq<u8>,
)
    requires
        p0.section_effect(x0, &p1, x1, header, tsh, data),
        p0.last_version() != Some(psi::spec_table_version(tsh)),
        psi::spec_crc_check_passes(data),
        header.table_id == 0,
    ensures
        ({
            let proc0 = p0.inner().inner();
            let proc1 = p1.inner().inner();
            let s = data.subrange(8, data.len() - 4);
            let added = proc1.requested().subrange(
                proc0.requested().len() as int,
                proc1.requested().len() as int,
            );
            &&& pat_table_update(
                proc0.registered(),
                proc0.requested(),
                s,
                proc1.registered(),
                proc1.requested(),
            )
            &&& proc1.table_calls() == proc0.table_calls() + pat_table_calls(s, added)
            &&& table_calls_run(x0, pat_table_calls(s, added), x1)
        }),
{
    let proc0 = p0.inner().inner();
    let proc1 = p1.inner().inner();
    let s = data.subrange(8, data.len() - 4);
    let added = proc1.requested().subrange(
        proc0.requested().len() as int,
        proc1.requested().len() as int,
    );
    assert(proc1.table_calls().subrange(
        proc0.table_calls().len() as int,
        proc1.table_calls().len() as int,
    ) =~= pat_table_calls(s, added));
}

/// A PMT section that gets through the chain of a PMT filter to its processor (its version is
/// not the last one seen, its CRC is correct) with the `table_id` 2 and room for the PMT's fixed
/// fields changes the processor as [`pmt_table_update`] describes and the context exactly as
/// the processor's calls for the section's table data do, in order: for each stream listed, a
/// filter is constructed for the [`FilterRequest::ByStream`] request naming the processor's
/// PID, the section's table data and the stream's entry, and its insertion queued; then the
/// removals of the filters for streams no longer listed are queued.
pub proof fn lemma_pmt_chain_section<Ctx: DemuxContext>(
    p0: SectionChain<PmtProcessor<Ctx>>,
    x0: Ctx,
    p1: SectionChain<PmtProcessor<Ctx>>,
    x1: Ctx,
    header: psi::SectionCommonHeader,
    tsh: Seq<u8>,
    data: Seq<u8>,
)
    requires
        p0.section_effect(x0, &p1, x1, header, tsh, data),
        p0.last_version() != Some(psi::spec_table_version(tsh)),
        psi::spec_crc_check_passes(data),
        data.len() >= 16,
        header.table_id == 2,
    ensures
        ({
            let proc0 = p0.inner().inner();
            let proc1 = p1.inner().inner();
            let s = data.subrange(8, data.len() - 4);
            let added = proc1.requested().subrange(
                proc0.requested().len() as int,
                proc1.requested().len() as int,
            );
            &&& pmt_table_update(
                proc0.registered(),
                proc0.requested(),
                s,
                proc1.registered(),
                proc1.requested(),
            )
            &&& proc1.table_calls() == proc0.table_calls() + pmt_table_calls(proc0.pid(), s, added)
            &&& table_calls_run(x0, pmt_table_calls(proc0.pid(), s, added), x1)
        }),
{
    let proc0 = p0.inner().inner();
    let proc1 = p1.inner().inner();
    let s = data.subrange(8, data.len() - 4);
    let added = proc1.requested().subrange(
        proc0.requested().len() as int,
        proc1.requested().len() as int,
    );
    assert(proc1.table_calls().subrange(
        proc0.table_calls().len() as int,
        proc1.table_calls().len() as int,
    ) =~= pmt_table_calls(proc0.pid(), s, added));
}

/// `true` when `f` is a fresh chain of section handling for the PID `pid`: the framer is idle
/// and not yet synchronised, with nothing buffered, delivered or reported; no version has been
/// seen; nothing has been forwarded past the version or CRC checks, and the CRC checker reports
/// its problems for `pid`.
pub open spec fn fresh_consumer<Proc: psi::WholeSectionSyntaxPayloadParser>(
    f: PacketFilterConsumer<Proc>,
    pid: packet::Pid,
) -> bool {
    &&& f.wf()
    &&& f.pid() == pid
    &&& f.state() == psi::FramerState::Idle
    &&& f.buffered().len() == 0
    &&& !f.synced()
    &&& f.delivered() == Seq::<Seq<u8>>::empty()
    &&& f.reported() == Seq::<crate::error::DemuxError>::empty()
    &&& f.calls() == Seq::<psi::FramerCall>::empty()
    &&& f.parser().last_version() is None
    &&& f.parser().forwarded() == Seq::<Seq<u8>>::empty()
    &&& f.parser().inner().pid() == pid
    &&& f.parser().inner().forwarded() == Seq::<Seq<u8>>::empty()
    &&& f.parser().inner().reported() == Seq::<crate::error::DemuxError>::empty()
}

/// `PacketFilter` implementation which will insert some other `PacketFilter` into the `Demultiplex`
/// instance for each sub-stream listed in one of the stream's PMT-sections.
///
/// The particular `PacketFilter` to be inserted is determined by querying
/// [`DemuxContext::construct()`], passing a [`FilterRequest::ByStream`] request.
pub struct PmtPacketFilter<Ctx: DemuxContext + 'static> {
    pmt_section_packet_consumer: PacketFilterConsumer<PmtProcessor<Ctx>>,
}

impl<Ctx: DemuxContext> PmtPacketFilter<Ctx> {
    /// The framer reconstructing PMT sections from packets.
    pub closed spec fn framer(&self) -> PacketFilterConsumer<PmtProcessor<Ctx>> {
        self.pmt_section_packet_consumer
    }

    /// The table processor at the end of the chain.
    pub open spec fn processor(&self) -> PmtProcessor<Ctx> {
        self.framer().parser().inner().inner()
    }

    /// creates a new `PmtPacketFilter` for PMT sections in packets with the given `Pid`, and for
    /// the given _program number_.
    pub fn new(pid: packet::Pid, program_number: u16) -> (r: PmtPacketFilter<Ctx>)
        ensures
            fresh_consumer(r.framer(), pid),
            r.processor().pid() == pid,
            r.processor().program_number() == program_number,
            r.processor().registered() == Set::<usize>::empty(),
            r.processor().requested() == Seq::<RequestedChange>::empty(),
            r.processor().reported() == Seq::<ReportedError>::empty(),
            r.processor().table_calls() == Seq::<TableCall>::empty(),
    {
        let pmt_proc = PmtProcessor::new(pid, program_number);
        PmtPacketFilter {
            pmt_section_packet_consumer: psi::SectionSyntaxFramer::new(
                pid,
                psi::DedupSectionSyntaxPayloadParser::new(
                    psi::CrcCheckWholeSectionSyntaxPayloadParser::new(pid, pmt_proc),
                ),
            ),
        }
    }
}

impl<Ctx: DemuxContext> PacketFilter for PmtPacketFilter<Ctx> {
    type Ctx = Ctx;

    fn consume(&mut self, ctx: &mut Self::Ctx, pk: &packet::Packet<'_>)
        ensures
            psi::framer_consumed(old(self).framer(), final(self).framer(), pk@),
            psi::framer_called(old(self).framer(), *old(ctx), final(self).framer(), *final(ctx)),
    {
        self.pmt_section_packet_consumer.consume(ctx, pk);
    }
}

/// A packet starting a section, whose payload holds a `pointer_field` of 0, then one whole PAT
/// section (`table_id` 0) with a correct CRC and a version other than the last one seen, then
/// only stuffing, handed to a PAT filter whose framer is idle with nothing buffered (as
/// [`PatPacketFilter::consume()`] describes it), changes the filter's processor as
/// [`pat_table_update`] describes and the context exactly as the processor's calls for the
/// section's table data do, in order: for each program listed, a filter for its PMT (or for
/// the NIT) is constructed and its insertion queued; then the removals of the filters for
/// programs no longer listed are queued.
pub proof fn lemma_pat_filter_packet<Ctx: DemuxContext>(
    f0: PatPacketFilter<Ctx>,
    x0: Ctx,
    f1: PatPacketFilter<Ctx>,
    x1: Ctx,
    pk: Seq<u8>,
    sec: Seq<u8>,
    stuffing: Seq<u8>,
)
    requires
        psi::framer_consumed(f0.framer(), f1.framer(), pk),
        psi::framer_called(f0.framer(), x0, f1.framer(), x1),
        f0.framer().wf(),
        f0.framer().state() == psi::FramerState::Idle,
        (pk[1] / 64) % 2 == 1,
        packet::spec_packet_payload(pk) == Some(seq![0u8] + sec + stuffing),
        forall|i: int| 0 <= i < stuffing.len() ==> stuffing[i] == 0xff,
        psi::chunking::whole_section::<psi::SectionSyntaxMode<SectionChain<PatProcessor<Ctx>>>>(sec),
        psi::spec_crc_check_passes(sec),
        sec[0] == 0,
        f0.framer().parser().last_version() != Some(
            psi::spec_table_version(sec.subrange(3, sec.len() as int)),
        ),
    ensures
        ({
            let proc0 = f0.processor();
            let proc1 = f1.processor();
            let s = sec.subrange(8, sec.len() - 4);
            let added = proc1.requested().subrange(
                proc0.requested().len() as int,
                proc1.requested().len() as int,
            );
            &&& pat_table_update(
                proc0.registered(),
                proc0.requested(),
                s,
                proc1.registered(),
                proc1.requested(),
            )
            &&& proc1.table_calls() == proc0.table_calls() + pat_table_calls(s, added)
            &&& table_calls_run(x0, pat_table_calls(s, added), x1)
        }),
{
    psi::chunking::lemma_one_section_packet(f0.framer(), x0, f1.framer(), x1, pk, sec, stuffing);
    let h = psi::spec_section_common_header(sec.subrange(0, 3));
    lemma_pat_chain_section(
        f0.framer().parser(),
        x0,
        f1.framer().parser(),
        x1,
        h,
        sec.subrange(3, sec.len() as int),
        sec,
    );
}

/// A packet starting a section, whose payload holds a `pointer_field` of 0, then one whole PMT
/// section (`table_id` 2, with room for the PMT's fixed fields) with a correct CRC and a version
/// other than the last one seen, then only stuffing, handed to a PMT filter whose framer is idle
/// with nothing buffered (as [`PmtPacketFilter::consume()`] describes it), changes the filter's
/// processor as [`pmt_table_update`] describes and the context exactly as the processor's calls
/// for the section's table data do, in order: for each stream listed, a filter is constructed
/// for the [`FilterRequest::ByStream`] request naming the processor's PID, the section's table
/// data and the stream's entry, and its insertion queued; then the removals of the filters for
/// streams no longer listed are queued.
pub proof fn lemma_pmt_filter_packet<Ctx: DemuxContext>(
    f0: PmtPacketFilter<Ctx>,
    x0: Ctx,
    f1: PmtPacketFilter<Ctx>,
    x1: Ctx,
    pk: Seq<u8>,
    sec: Seq<u8>,
    stuffing: Seq<u8>,
)
    requires
        psi::framer_consumed(f0.framer(), f1.framer(), pk),
        psi::framer_called(f0.framer(), x0, f1.framer(), x1),
        f0.framer().wf(),
        f0.framer().state() == psi::FramerState::Idle,
        (pk[1] / 64) % 2 == 1,
        packet::spec_packet_payload(pk) == Some(seq![0u8] + sec + stuffing),
        forall|i: int| 0 <= i < stuffing.len() ==> stuffing[i] == 0xff,
        psi::chunking::whole_section::<psi::SectionSyntaxMode<SectionChain<PmtProcessor<Ctx>>>>(sec),
        psi::spec_crc_check_passes(sec),
        sec.len() >= 16,
        sec[0] == 2,
        f0.framer().parser().last_version() != Some(
            psi::spec_table_version(sec.subrange(3, sec.len() as int)),
        ),
    ensures
        ({
            let proc0 = f0.processor();
            let proc1 = f1.processor();
            let s = sec.subrange(8, sec.len() - 4);
            let added = proc1.requested().subrange(
                proc0.requested().len() as int,
                proc1.requested().len() as int,
            );
            &&& pmt_table_update(
                proc0.registered(),
                proc0.requested(),
                s,
                proc1.registered(),
                proc1.requested(),
            )
            &&& proc1.table_calls() == proc0.table_calls() + pmt_table_calls(proc0.pid(), s, added)
            &&& table_calls_run(x0, pmt_table_calls(proc0.pid(), s, added), x1)
        }),
{
    psi::chunking::lemma_one_section_packet(f0.framer(), x0, f1.framer(), x1, pk, sec, stuffing);
    let h = psi::spec_section_common_header(sec.subrange(0, 3));
    lemma_pmt_chain_section(
        f0.framer().parser(),
        x0,
        f1.framer().parser(),
        x1,
        h,
        sec.subrange(3, sec.len() as int),
        sec,
    );
}

/// `PacketFilter` implementation which will insert some other `PacketFilter` into the `Demultiplex`
/// instance for each program listed in the stream's PAT-section.
///
/// The particular `PacketFilter` to be inserted is determined by querying
/// [`DemuxContext::construct()`], passing a [`FilterRequest::Pmt`] request.
pub struct PatPacketFilter<Ctx: DemuxContext> {
    pat_section_packet_consumer: PacketFilterConsumer<PatProcessor<Ctx>>,
}

impl<Ctx: DemuxContext> PatPacketFilter<Ctx> {
    /// The framer reconstructing PAT sections from packets.
    pub closed spec fn framer(&self) -> PacketFilterConsumer<PatProcessor<Ctx>> {
        self.pat_section_packet_consumer
    }

    /// The table processor at the end of the chain.
    pub open spec fn processor(&self) -> PatProcessor<Ctx> {
        self.framer().parser().inner().inner()
    }
}

impl<Ctx: DemuxContext> Default for PatPacketFilter<Ctx> {
    fn default() -> (r: PatPacketFilter<Ctx>)
        ensures
            fresh_consumer(r.framer(), packet::pid_of(pat::PAT_PID)),
            r.processor().registered() == Set::<usize>::empty(),
            r.processor().requested() == Seq::<RequestedChange>::empty(),
            r.processor().reported() == Seq::<ReportedError>::empty(),
            r.processor().table_calls() == Seq::<TableCall>::empty(),
    {
        let pat_proc = PatProcessor::default();
        let pid = packet::Pid::new(pat::PAT_PID);
        PatPacketFilter {
            pat_section_packet_consumer: psi::SectionSyntaxFramer::new(
                pid,
                psi::DedupSectionSyntaxPayloadParser::new(
                    psi::CrcCheckWholeSectionSyntaxPayloadParser::new(pid, pat_proc),
                ),
            ),
        }
    }
}

impl<Ctx: DemuxContext> PacketFilter for PatPacketFilter<Ctx> {
    type Ctx = Ctx;

    fn consume(&mut self, ctx: &mut Self::Ctx, pk: &packet::Packet<'_>)
        ensures
            psi::framer_consumed(old(self).framer(), final(self).framer(), pk@),
            psi::framer_called(old(self).framer(), *old(ctx), final(self).framer(), *final(ctx)),
    {
        self.pat_section_packet_consumer.consume(ctx, pk);
    }
}

/// `true` when the packet `pk` is dropped by the demultiplexer rather than handed to a filter:
/// its `transport_error_indicator` is set, or its payload is scrambled.
pub open spec fn dropped_packet(pk: Seq<u8>) -> bool {
    pk[1] >= 128 || pk[3] / 64 != 0
}

/// The packets of `buf` that the demultiplexer hands to its filters, in order: `buf` is taken
/// 188 bytes at a time, up to the first piece that does not start with the sync byte (any
/// bytes after a last whole packet are ignored), and the dropped packets are left out.
pub open spec fn demux_packets(buf: Seq<u8>) -> Seq<Seq<u8>>
    decreases buf.len(),
{
    if buf.len() < 188 || buf[0] != 0x47 {
        Seq::empty()
    } else {
        let pk = buf.subrange(0, 188);
        let rest = demux_packets(buf.subrange(188, buf.len() as int));
        if dropped_packet(pk) {
            rest
        } else {
            seq![pk] + rest
        }
    }
}

/// The problems that the demultiplexer reports for the packets of `buf` (taken as
/// [`demux_packets`] takes them), in order: one for each packet dropped, because its
/// `transport_error_indicator` is set or else because it is scrambled.
pub open spec fn demux_errors(buf: Seq<u8>) -> Seq<ReportedError>
    decreases buf.len(),
{
    if buf.len() < 188 || buf[0] != 0x47 {
        Seq::empty()
    } else {
        let pk = buf.subrange(0, 188);
        let pid = packet::pid_of(packet::spec_packet_pid(pk));
        let rest = demux_errors(buf.subrange(188, buf.len() as int));
        if pk[1] >= 128 {
            seq![ReportedError::TransportError { pid }] + rest
        } else if pk[3] / 64 != 0 {
            seq![ReportedError::ScrambledPacket { pid }] + rest
        } else {
            rest
        }
    }
}

/// The packets of `buf` that the demultiplexer handles, in order: `buf` is taken 188 bytes at a
/// time, up to the first piece that does not start with the sync byte (any bytes after a last
/// whole packet are ignored).
pub open spec fn synced_packets(buf: Seq<u8>) -> Seq<Seq<u8>>
    decreases buf.len(),
{
    if buf.len() < 188 || buf[0] != 0x47 {
        Seq::empty()
    } else {
        seq![buf.subrange(0, 188)] + synced_packets(buf.subrange(188, buf.len() as int))
    }
}

/// `true` when the filters `ma` and the context `ca` follow from `m0` and `c0` once a filter is
/// registered for the PID `pid`: unchanged when there is one, and otherwise with the filter that
/// the context constructs for [`FilterRequest::ByPid`] added.
pub open spec fn demux_filter_ready<Ctx: DemuxContext>(m0: Map<int, Ctx::F>, c0: Ctx, pid: u16, ma: Map<int, Ctx::F>, ca: Ctx) -> bool {
    if m0.contains_key(pid as int) {
        ma == m0 && ca == c0
    } else {
        exists|f: Ctx::F|
            #![trigger c0.construct_effect(FilterRequest::ByPid(packet::pid_of(pid)), &ca, f)]
            c0.construct_effect(FilterRequest::ByPid(packet::pid_of(pid)), &ca, f) && ma == m0.insert(
                pid as int,
                f,
            )
    }
}

/// `true` when the filters `m1` and the context `c1` follow from `mb` and `cb` once the changes
/// queued in the context are applied in order, leaving none queued.
pub open spec fn demux_changes_applied<Ctx: DemuxContext>(mb: Map<int, Ctx::F>, cb: Ctx, m1: Map<int, Ctx::F>, c1: Ctx) -> bool {
    &&& m1 == apply_changes(mb, cb.changes())
    &&& c1.changes() == Seq::<FilterChange<Ctx::F>>::empty()
}

/// `true` when the filters `m1` and the context `c1` follow from `ma` and `ca`, where a filter
/// is registered for the packet `pk`'s PID, once the packet is handled: a packet with its
/// `transport_error_indicator` set, or a scrambled one, is reported to the context; any other
/// is consumed by the filter registered for its PID, and the changes that filter queued are
/// then applied.
pub open spec fn demux_dispatch<Ctx: DemuxContext>(ma: Map<int, Ctx::F>, ca: Ctx, pk: Seq<u8>, m1: Map<int, Ctx::F>, c1: Ctx) -> bool {
    let pid = packet::spec_packet_pid(pk);
    if pk[1] >= 128 {
        m1 == ma && ca.error_effect(ReportedError::TransportError { pid: packet::pid_of(pid) }, &c1)
    } else if pk[3] / 64 != 0 {
        m1 == ma && ca.error_effect(ReportedError::ScrambledPacket { pid: packet::pid_of(pid) }, &c1)
    } else {
        exists|f: Ctx::F, cb: Ctx|
            #![trigger ma[pid as int].consume_effect(ca, pk, &f, cb)]
            ma[pid as int].consume_effect(ca, pk, &f, cb) && demux_changes_applied(
                ma.insert(pid as int, f),
                cb,
                m1,
                c1,
            )
    }
}

/// `true` when the filters `m1` and the context `c1` follow from `m0` and `c0` once the packet
/// `pk` is demultiplexed: a filter is constructed for its PID when there is none, and the packet
/// is then handled as [`demux_dispatch`] describes.
pub open spec fn demux_step<Ctx: DemuxContext>(m0: Map<int, Ctx::F>, c0: Ctx, pk: Seq<u8>, m1: Map<int, Ctx::F>, c1: Ctx) -> bool {
    exists|ma: Map<int, Ctx::F>, ca: Ctx|
        #![trigger demux_filter_ready(m0, c0, packet::spec_packet_pid(pk), ma, ca)]
        demux_filter_ready(m0, c0, packet::spec_packet_pid(pk), ma, ca) && demux_dispatch(
            ma,
            ca,
            pk,
            m1,
            c1,
        )
}

/// `true` when the filters `m1` and the context `c1` follow from `m0` and `c0` once the packets
/// `pks` are demultiplexed one after another, as [`demux_step`] describes.
pub open spec fn demux_run<Ctx: DemuxContext>(m0: Map<int, Ctx::F>, c0: Ctx, pks: Seq<Seq<u8>>, m1: Map<int, Ctx::F>, c1: Ctx) -> bool
    decreases pks.len(),
{
    if pks.len() == 0 {
        m1 == m0 && c1 == c0
    } else {
        exists|m: Map<int, Ctx::F>, c: Ctx|
            #![trigger demux_step(m, c, pks.last(), m1, c1)]
            demux_run(m0, c0, pks.drop_last(), m, c) && demux_step(m, c, pks.last(), m1, c1)
    }
}

/// Transport Stream demultiplexer.
///
/// Uses the `DemuxContext` passed to `new()` to create Filters for
/// processing the payloads of each packet discovered in the TransportStream.
///
/// # Incremental parsing
///
/// Successive sections of transport stream data can be passed in order to `push()`, and the
/// demultiplexing process will resume at the start of one buffer where it left off at the end of
/// the last.  This supports for example the processing of sections of TS data as they are received
/// from the network, without needing to copy them out of the source network buffer.
pub struct Demultiplex<Ctx: DemuxContext> {
    processor_by_pid: Filters<Ctx::F>,
    dispatched: Ghost<Seq<Seq<u8>>>,
    reported: Ghost<Seq<ReportedError>>,
}

impl<Ctx: DemuxContext> Demultiplex<Ctx> {
    /// The PID values for which a filter is registered.
    pub closed spec fn filter_pids(&self) -> Set<int> {
        self.processor_by_pid@.dom()
    }

    /// The filters registered, by PID value.
    pub closed spec fn filters(&self) -> Map<int, Ctx::F> {
        self.processor_by_pid@
    }

    /// The packets handed to the filters so far, in order.
    pub closed spec fn dispatched(&self) -> Seq<Seq<u8>> {
        self.dispatched@
    }

    /// The problems reported to the context so far, in order.
    pub closed spec fn reported(&self) -> Seq<ReportedError> {
        self.reported@
    }

    /// Create a `Dumultiplex` instance, and populate it with an initial `PacketFilter` for
    /// handling PAT packets (which is created by the given `DemuxContext` object).
    /// The returned value does not retain any reference to the given `DemuxContext` reference.
    pub fn new(ctx: &mut Ctx) -> (r: Demultiplex<Ctx>)
        ensures
            r.filter_pids() == set![pat::PAT_PID as int],
            old(ctx).construct_effect(
                FilterRequest::ByPid(packet::pid_of(pat::PAT_PID)),
                final(ctx),
                r.filters()[pat::PAT_PID as int],
            ),
            r.dispatched() == Seq::<Seq<u8>>::empty(),
            r.reported() == Seq::<ReportedError>::empty(),
    {
        let mut result = Demultiplex {
            processor_by_pid: Filters::new(),
            dispatched: Ghost(Seq::empty()),
            reported: Ghost(Seq::empty()),
        };
        let pat_pid = packet::Pid::new(pat::PAT_PID);
        let pat_filter = ctx.construct(FilterRequest::ByPid(pat_pid));
        result.processor_by_pid.insert(pat_pid, pat_filter);
        proof {
            assert(result.processor_by_pid@.dom() =~= set![pat::PAT_PID as int]);
        }
        result
    }

    /// Parse the Transport Stream packets in the given buffer, using functions from the given
    /// `DemuxContext` object.
    ///
    /// Each whole packet is handled in order, up to the first one that does not start with the
    /// sync byte: a filter is first constructed (for [`FilterRequest::ByPid`]) for a PID that has
    /// none; a packet with its `transport_error_indicator` set, or a scrambled one, is then
    /// reported as `TransportError` or `ScrambledPacket` and dropped; any other packet is handed
    /// to the filter for its PID, after which the changes queued in the context's
    /// `FilterChangeset`, if any, are applied.
    pub fn push(&mut self, ctx: &mut Ctx, buf: &[u8])
        ensures
            final(self).dispatched() == old(self).dispatched() + demux_packets(buf@),
            final(self).reported() == old(self).reported() + demux_errors(buf@),
            demux_run(old(self).filters(), *old(ctx), synced_packets(buf@), final(self).filters(), *final(ctx)),
    {
        let ghost d0 = self.dispatched@;
        let ghost e0 = self.reported@;
        let ghost m0 = self.processor_by_pid@;
        let ghost x0 = *ctx;
        let ghost mut done: Seq<Seq<u8>> = Seq::empty();
        let mut start: usize = 0;
        proof {
            assert(buf@.subrange(0, buf@.len() as int) =~= buf@);
        }
        while buf.len() - start >= packet::Packet::SIZE
            invariant
                start <= buf@.len(),
                d0 == old(self).dispatched@,
                e0 == old(self).reported@,
                e0 + demux_errors(buf@) == self.reported@ + demux_errors(
                    buf@.subrange(start as int, buf@.len() as int),
                ),
                d0 + demux_packets(buf@) == self.dispatched@ + demux_packets(
                    buf@.subrange(start as int, buf@.len() as int),
                ),
                m0 == old(self).processor_by_pid@,
                x0 == *old(ctx),
                synced_packets(buf@) == done + synced_packets(buf@.subrange(start as int, buf@.len() as int)),
                demux_run(m0, x0, done, self.processor_by_pid@, *ctx),
            decreases buf@.len() - start,
        {
            let ghost rest = buf@.subrange(start as int, buf@.len() as int);
            let chunk = &buf[start..start + packet::Packet::SIZE];
            proof {
                assert(chunk@ =~= rest.subrange(0, 188));
                assert(rest.subrange(188, rest.len() as int) =~= buf@.subrange(start + 188, buf@.len() as int));
            }
            let ghost ms = self.processor_by_pid@;
            let ghost cs = *ctx;
            proof {
                assert(synced_packets(rest) == (if rest[0] == 0x47 {
                    seq![rest.subrange(0, 188)] + synced_packets(rest.subrange(188, rest.len() as int))
                } else {
                    Seq::<Seq<u8>>::empty()
                }));
            }
            match packet::Packet::try_new(chunk) {
                None => {
                    proof {
                        assert(done + Seq::<Seq<u8>>::empty() =~= done);
                        assert(demux_packets(rest) =~= Seq::<Seq<u8>>::empty());
                        assert(self.dispatched@ + Seq::<Seq<u8>>::empty() =~= self.dispatched@);
                        assert(demux_errors(rest) =~= Seq::<ReportedError>::empty());
                        assert(self.reported@ + Seq::<ReportedError>::empty() =~= self.reported@);
                    }
                    return ;
                },
                Some(pk) => {
                    let this_pid = pk.pid();
                    if !self.processor_by_pid.contains(this_pid) {
                        self.add_pid_filter(ctx, this_pid);
                    }
                    let ghost ma = self.processor_by_pid@;
                    let ghost ca = *ctx;
                    proof {
                        assert(demux_filter_ready(ms, cs, packet::spec_packet_pid(chunk@), ma, ca));
                    }
                    if pk.transport_error_indicator() {
                        // drop packets that have transport_error_indicator set, on the assumption
                        // that the contents are nonsense
                        let e = ReportedError::TransportError { pid: this_pid };
                        ctx.error(e);
                        proof {
                            assert(demux_dispatch(ma, ca, chunk@, self.processor_by_pid@, *ctx));
                            let r = self.reported@;
                            self.reported@ = self.reported@.push(e);
                            assert(r + (seq![e] + demux_errors(rest.subrange(188, rest.len() as int)))
                                =~= self.reported@ + demux_errors(rest.subrange(188, rest.len() as int)));
                        }
                    } else if pk.transport_scrambling_control() != TransportScramblingControl::NotScrambled {
                        let e = ReportedError::ScrambledPacket { pid: this_pid };
                        ctx.error(e);
                        proof {
                            assert(demux_dispatch(ma, ca, chunk@, self.processor_by_pid@, *ctx));
                            let r = self.reported@;
                            self.reported@ = self.reported@.push(e);
                            assert(r + (seq![e] + demux_errors(rest.subrange(188, rest.len() as int)))
                                =~= self.reported@ + demux_errors(rest.subrange(188, rest.len() as int)));
                        }
                    } else {
                        let ghost f0 = ma[this_pid@ as int];
                        if let Some(filter) = self.processor_by_pid.get(this_pid) {
                            filter.consume(ctx, &pk);
                        }
                        let ghost mb = self.processor_by_pid@;
                        let ghost cb = *ctx;
                        let ghost fb = mb[this_pid@ as int];
                        proof {
                            assert(mb == ma.insert(this_pid@ as int, fb));
                            assert(f0.consume_effect(ca, chunk@, &fb, cb));
                        }
                        proof {
                            let d = self.dispatched@;
                            self.dispatched@ = self.dispatched@.push(chunk@);
                            assert(d + (seq![chunk@] + demux_packets(rest.subrange(188, rest.len() as int)))
                                =~= self.dispatched@ + demux_packets(rest.subrange(188, rest.len() as int)));
                        }
                        let queued = ctx.filter_changeset();
                        let nothing_queued = queued.is_empty();
                        proof {
                            assert(ctx.changes() == cb.changes());
                        }
                        if !nothing_queued {
                            ctx.filter_changeset().apply(&mut self.processor_by_pid);
                        } else {
                            proof {
                                assert(cb.changes() =~= Seq::<FilterChange<Ctx::F>>::empty());
                                assert(apply_changes(mb, cb.changes()) == mb);
                            }
                        }
                        proof {
                            assert(demux_changes_applied(mb, cb, self.processor_by_pid@, *ctx));
                            assert(demux_dispatch(ma, ca, chunk@, self.processor_by_pid@, *ctx));
                        }
                    }
                },
            }
            proof {
                assert(demux_step(ms, cs, chunk@, self.processor_by_pid@, *ctx));
                let d = done;
                done = done.push(chunk@);
                assert(done.drop_last() =~= d);
                assert(demux_run(m0, x0, done.drop_last(), ms, cs) && demux_step(ms, cs, done.last(), self.processor_by_pid@, *ctx));
                assert(d + (seq![chunk@] + synced_packets(rest.subrange(188, rest.len() as int))) =~= done + synced_packets(rest.subrange(188, rest.len() as int)));
            }
            start = start + packet::Packet::SIZE;
        }
        proof {
            assert(demux_packets(buf@.subrange(start as int, buf@.len() as int)) =~= Seq::<Seq<u8>>::empty());
            assert(self.dispatched@ + Seq::<Seq<u8>>::empty() =~= self.dispatched@);
            assert(demux_errors(buf@.subrange(start as int, buf@.len() as int)) =~= Seq::<ReportedError>::empty());
            assert(self.reported@ + Seq::<ReportedError>::empty() =~= self.reported@);
        }
    }

    fn add_pid_filter(&mut self, ctx: &mut Ctx, this_pid: packet::Pid)
        ensures
            final(self).filter_pids() == old(self).filter_pids().insert(this_pid@ as int),
            old(ctx).construct_effect(
                FilterRequest::ByPid(this_pid),
                final(ctx),
                final(self).filters()[this_pid@ as int],
            ),
            final(self).filters() == old(self).filters().insert(
                this_pid@ as int,
                final(self).filters()[this_pid@ as int],
            ),
            final(self).dispatched() == old(self).dispatched(),
            final(self).reported() == old(self).reported(),
    {
        let filter = ctx.construct(FilterRequest::ByPid(this_pid));
        self.processor_by_pid.insert(this_pid, filter);
    }
}

/// A problem found in the structure of the data being demultiplexed.
#[derive(Debug)]
pub enum DemuxError {
    /// The transport stream has a syntax error that means there was not enough data present to
    /// parse the requested structure.
    NotEnoughData {
        /// The name of the field we were unable to parse
        field: &'static str,
        /// The expected size of the field data
        expected: usize,
        /// the actual size of data available within the transport stream
        actual: usize,
    },
}

/// `true` when `buf` is a sequence of whole packets, each starting with the sync byte.
pub open spec fn whole_packets(buf: Seq<u8>) -> bool
    decreases buf.len(),
{
    if buf.len() == 0 {
        true
    } else {
        buf.len() >= 188 && buf[0] == 0x47 && whole_packets(buf.subrange(188, buf.len() as int))
    }
}

/// Demultiplexing resumes where the last buffer left off: once a buffer of whole,
/// synchronised packets has been pushed, pushing more data hands the filters the same packets
/// as pushing both buffers joined together.
pub proof fn lemma_demux_packets_concat(a: Seq<u8>, b: Seq<u8>)
    requires
        whole_packets(a),
    ensures
        demux_packets(a + b) == demux_packets(a) + demux_packets(b),
        demux_errors(a + b) == demux_errors(a) + demux_errors(b),
        synced_packets(a + b) == synced_packets(a) + synced_packets(b),
    decreases a.len(),
{
    if a.len() == 0 {
        assert(a + b =~= b);
        assert(synced_packets(a) + synced_packets(b) =~= synced_packets(b));
        assert(demux_packets(a) + demux_packets(b) =~= demux_packets(b));
        assert(demux_errors(a) + demux_errors(b) =~= demux_errors(b));
    } else {
        let ab = a + b;
        let a2 = a.subrange(188, a.len() as int);
        assert(ab.subrange(0, 188) =~= a.subrange(0, 188));
        assert(ab.subrange(188, ab.len() as int) =~= a2 + b);
        lemma_demux_packets_concat(a2, b);
        let pk = a.subrange(0, 188);
        assert(seq![pk] + (synced_packets(a2) + synced_packets(b)) =~= (seq![pk] + synced_packets(a2)) + synced_packets(b));
        if !dropped_packet(pk) {
            assert(seq![pk] + (demux_packets(a2) + demux_packets(b)) =~= (seq![pk] + demux_packets(a2)) + demux_packets(b));
        }
        let e = demux_errors(ab).subrange(0, demux_errors(ab).len() - demux_errors(a2 + b).len());
        assert(demux_errors(ab) =~= e + demux_errors(a2 + b));
        assert(demux_errors(a) =~= e + demux_errors(a2));
        assert(e + (demux_errors(a2) + demux_errors(b)) =~= (e + demux_errors(a2)) + demux_errors(b));
    }
}

/// Demultiplexing the packets `p` and then the packets `q` is demultiplexing `p + q`.
pub proof fn lemma_demux_run_concat<Ctx: DemuxContext>(m0: Map<int, Ctx::F>, c0: Ctx, p: Seq<Seq<u8>>, m1: Map<int, Ctx::F>, c1: Ctx, q: Seq<Seq<u8>>, m2: Map<int, Ctx::F>, c2: Ctx)
    requires
        demux_run(m0, c0, p, m1, c1),
        demux_run(m1, c1, q, m2, c2),
    ensures
        demux_run(m0, c0, p + q, m2, c2),
    decreases q.len(),
{
    if q.len() == 0 {
        assert(p + q =~= p);
    } else {
        let (m, c) = choose|m: Map<int, Ctx::F>, c: Ctx|
            #![trigger demux_step(m, c, q.last(), m2, c2)]
            demux_run(m1, c1, q.drop_last(), m, c) && demux_step(m, c, q.last(), m2, c2);
        lemma_demux_run_concat(m0, c0, p, m1, c1, q.drop_last(), m, c);
        assert((p + q).drop_last() =~= p + q.drop_last());
        assert((p + q).last() == q.last());
    }
}

/// Pushing the buffer `a` of whole, synchronised packets and then the buffer `b` to a
/// demultiplexer hands its filters the same packets, reports the same problems, and leaves the
/// filters and the context as demultiplexing does, as pushing `a` and `b` joined together.
pub proof fn lemma_push_resumes<Ctx: DemuxContext>(d0: Demultiplex<Ctx>, d1: Demultiplex<Ctx>, d2: Demultiplex<Ctx>, c0: Ctx, c1: Ctx, c2: Ctx, a: Seq<u8>, b: Seq<u8>)
    requires
        whole_packets(a),
        d1.dispatched() == d0.dispatched() + demux_packets(a),
        d2.dispatched() == d1.dispatched() + demux_packets(b),
        d1.reported() == d0.reported() + demux_errors(a),
        d2.reported() == d1.reported() + demux_errors(b),
        demux_run(d0.filters(), c0, synced_packets(a), d1.filters(), c1),
        demux_run(d1.filters(), c1, synced_packets(b), d2.filters(), c2),
    ensures
        d2.dispatched() == d0.dispatched() + demux_packets(a + b),
        d2.reported() == d0.reported() + demux_errors(a + b),
        demux_run(d0.filters(), c0, synced_packets(a + b), d2.filters(), c2),
{
    lemma_demux_packets_concat(a, b);
    lemma_demux_run_concat(d0.filters(), c0, synced_packets(a), d1.filters(), c1, synced_packets(b), d2.filters(), c2);
    assert(d0.dispatched() + demux_packets(a) + demux_packets(b) =~= d0.dispatched() + (demux_packets(a) + demux_packets(b)));
    assert(d0.reported() + demux_errors(a) + demux_errors(b) =~= d0.reported() + (demux_errors(a) + demux_errors(b)));
}

/// Applying the queued changes `cs1` and then `cs2` to the filters `m` has the same effect as
/// applying all of them, in order, at once.
pub proof fn lemma_apply_changes_concat<F: PacketFilter>(m: Map<int, F>, cs1: Seq<FilterChange<F>>, cs2: Seq<FilterChange<F>>)
    ensures
        apply_changes(m, cs1 + cs2) == apply_changes(apply_changes(m, cs1), cs2),
    decreases cs1.len(),
{
    if cs1.len() == 0 {
        assert(cs1 + cs2 =~= cs2);
    } else {
        let all = cs1 + cs2;
        assert(all[0] == cs1[0]);
        assert(all.subrange(1, all.len() as int) =~= cs1.subrange(1, cs1.len() as int) + cs2);
        lemma_apply_changes_concat(change_filters(m, cs1[0]), cs1.subrange(1, cs1.len() as int), cs2);
    }
}

/// A later change for a PID overrides an earlier one: after queuing the insertion of a filter
/// for a PID, the filters hold that filter for it, and the other PIDs keep theirs.
pub proof fn lemma_insert_then_lookup<F: PacketFilter>(m: Map<int, F>, pid: packet::Pid, f: F)
    ensures
        apply_changes(m, seq![FilterChange::Insert(pid, f)]) == m.insert(pid@ as int, f),
        apply_changes(m, seq![FilterChange::Insert(pid, f), FilterChange::Remove(pid)]) == m.remove(pid@ as int),
{
    reveal_with_fuel(apply_changes, 3);
    let s1 = seq![FilterChange::Insert(pid, f)];
    assert(s1.subrange(1, 1) =~= Seq::<FilterChange<F>>::empty());
    let s2 = seq![FilterChange::Insert(pid, f), FilterChange::Remove(pid)];
    assert(s2.subrange(1, 2) =~= seq![FilterChange::<F>::Remove(pid)]);
    let s3 = seq![FilterChange::<F>::Remove(pid)];
    assert(s3.subrange(1, 1) =~= Seq::<FilterChange<F>>::empty());
    assert(m.insert(pid@ as int, f).remove(pid@ as int) =~= m.remove(pid@ as int));
}

/// A table listing exactly the PIDs already registered asks for no removals: its processor
/// queues just the insertions of its entries.
pub proof fn lemma_same_table_removes_nothing(registered: Set<usize>, inserts: Seq<RequestedChange>, added: Seq<RequestedChange>)
    requires
        inserts_then_removals(added, inserts, registered.difference(registered)),
    ensures
        added == inserts,
{
    let rem = choose|rem: Seq<usize>|
        #![trigger removals(rem)]
        ascending(rem) && rem.to_set() == registered.difference(registered) && added == inserts + removals(rem);
    assert(registered.difference(registered) =~= Set::<usize>::empty());
    if rem.len() > 0 {
        assert(rem.to_set().contains(rem[0]));
    }
    assert(removals(rem) =~= Seq::<RequestedChange>::empty());
    assert(added =~= inserts);
}

} // verus!
