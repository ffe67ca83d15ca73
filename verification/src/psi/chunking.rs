//! How the framing of sections depends on the way section data is split into pieces: it does
//! not, apart from stuffing, which ends a piece early.
use crate::error::DemuxError;
use crate::packet;
use crate::psi::{
    framer_called, framer_calls_applied, framer_consume_calls, framer_consume_errors,
    framer_consumed, framer_feed, framer_feed_calls, framer_feed_errors, framer_start,
    framer_start_calls, framer_start_errors, framer_step, framer_step_calls, framer_step_errors,
    framer_wf, ignoring_rank, spec_section_common_header, FeedResult, Framer, FramerCall,
    FramerState, SectionSyntax,
};
use vstd::prelude::*;

verus! {

/// The state that behaves as `st` does: an ignored section with nothing left to discard is the
/// same as no section at all.
pub open spec fn norm_state(st: FramerState) -> FramerState {
    if st == (FramerState::Ignoring { remaining: 0 }) {
        FramerState::Idle
    } else {
        st
    }
}

/// `true` when two outcomes of feeding section data agree: the same sections delivered, the
/// same bytes buffered, equivalent states, and stuffing found in both or neither.
pub open spec fn feed_equiv(r1: FeedResult, r2: FeedResult) -> bool {
    &&& r1.delivered == r2.delivered
    &&& r1.buf == r2.buf
    &&& norm_state(r1.state) == norm_state(r2.state)
    &&& r1.stopped == r2.stopped
}

/// The outcome of feeding `b` to a framer after the outcome `f1`: the sections delivered by
/// both, in order, and the state and buffer that `b` leaves.
pub open spec fn feed_then<S: SectionSyntax>(f1: FeedResult, b: Seq<u8>) -> FeedResult {
    let f2 = framer_feed::<S>(f1.state, f1.buf, b);
    FeedResult {
        state: f2.state,
        buf: f2.buf,
        delivered: f1.delivered + f2.delivered,
        stopped: f2.stopped,
    }
}

/// Each step of the framer keeps its state consistent with its buffer.
proof fn lemma_step_wf<S: SectionSyntax>(st: FramerState, buf: Seq<u8>, bytes: Seq<u8>)
    requires
        framer_wf::<S>(st, buf),
        bytes.len() > 0,
    ensures
        framer_wf::<S>(framer_step::<S>(st, buf, bytes).state, framer_step::<S>(st, buf, bytes).buf),
{
    match st {
        FramerState::Idle => {
            if bytes[0] != 0xff && bytes.len() >= 3 {
                let h = spec_section_common_header(bytes.subrange(0, 3));
                assert(spec_section_common_header(bytes) == h);
            }
        },
        FramerState::Collecting { target } => {
            let needed = target - buf.len();
            let take = if needed < bytes.len() {
                needed
            } else {
                bytes.len() as int
            };
            let nbuf = buf + bytes.subrange(0, take);
            assert(nbuf[0] == buf[0]);
            if nbuf.len() >= 3 && buf.len() >= 3 {
                assert(spec_section_common_header(nbuf) == spec_section_common_header(buf));
            }
        },
        FramerState::Ignoring { .. } => {},
    }
}

/// Feeding the framer section data keeps its state consistent with its buffer.
pub proof fn lemma_feed_wf<S: SectionSyntax>(st: FramerState, buf: Seq<u8>, bytes: Seq<u8>)
    requires
        framer_wf::<S>(st, buf),
    ensures
        framer_wf::<S>(framer_feed::<S>(st, buf, bytes).state, framer_feed::<S>(st, buf, bytes).buf),
    decreases bytes.len(), ignoring_rank(st),
{
    if bytes.len() > 0 {
        lemma_step_wf::<S>(st, buf, bytes);
        let s = framer_step::<S>(st, buf, bytes);
        if !s.stop {
            lemma_feed_wf::<S>(s.state, s.buf, s.rest);
        }
    }
}

/// Outcomes from equivalent states agree.
proof fn lemma_feed_norm<S: SectionSyntax>(st1: FramerState, st2: FramerState, buf: Seq<u8>, x: Seq<u8>)
    requires
        norm_state(st1) == norm_state(st2),
    ensures
        feed_equiv(framer_feed::<S>(st1, buf, x), framer_feed::<S>(st2, buf, x)),
{
    if st1 != st2 && x.len() > 0 {
        let f = framer_feed::<S>(FramerState::Idle, buf, x);
        let ign = FramerState::Ignoring { remaining: 0 };
        let s = framer_step::<S>(ign, buf, x);
        assert(s.rest =~= x);
        assert(s.state == FramerState::Idle);
        assert(Seq::<Seq<u8>>::empty() + f.delivered =~= f.delivered);
        assert(framer_feed::<S>(ign, buf, x).delivered == s.delivered + f.delivered);
    }
}

/// A framer collecting a section whose header it holds acts as an idle framer given the
/// buffered bytes ahead of its input.
proof fn lemma_collecting_with_header<S: SectionSyntax>(t: usize, buf: Seq<u8>, x: Seq<u8>)
    requires
        framer_wf::<S>(FramerState::Collecting { target: t }, buf),
        buf.len() >= 3,
    ensures
        feed_equiv(
            framer_feed::<S>(FramerState::Collecting { target: t }, buf, x),
            framer_feed::<S>(FramerState::Idle, Seq::empty(), buf + x),
        ),
{
    let st = FramerState::Collecting { target: t };
    let bytes = buf + x;
    let h = spec_section_common_header(buf);
    assert(spec_section_common_header(bytes.subrange(0, 3)) == h);
    assert(bytes[0] == buf[0]);
    let r = framer_step::<S>(FramerState::Idle, Seq::empty(), bytes);
    let rf = framer_feed::<S>(r.state, r.buf, r.rest);
    assert(framer_feed::<S>(FramerState::Idle, Seq::empty(), bytes).delivered == r.delivered + rf.delivered);
    if x.len() == 0 {
        assert(bytes =~= buf);
        assert(r.rest =~= Seq::<u8>::empty());
        assert(r.delivered + rf.delivered =~= Seq::<Seq<u8>>::empty());
    } else {
        let l = framer_step::<S>(st, buf, x);
        let take = if t - buf.len() < x.len() {
            t - buf.len()
        } else {
            x.len() as int
        };
        let nbuf = buf + x.subrange(0, take);
        let lf = framer_feed::<S>(l.state, l.buf, l.rest);
        assert(framer_feed::<S>(st, buf, x).delivered == l.delivered + lf.delivered);
        if bytes.len() >= t {
            assert(nbuf =~= bytes.subrange(0, t as int));
            assert(l.rest =~= r.rest);
            assert(l.delivered =~= r.delivered);
            assert(l.state == r.state);
            assert(l.buf =~= r.buf);
        } else {
            assert(nbuf =~= bytes);
            assert(l.rest =~= Seq::<u8>::empty());
            assert(r.rest =~= Seq::<u8>::empty());
            assert(l.state == r.state);
            assert(l.buf =~= r.buf);
            assert(l.delivered =~= r.delivered);
        }
    }
}

/// The header completed by the input was rejected.
#[verifier::spinoff_prover]
proof fn lemma_collecting_header_rejected<S: SectionSyntax>(buf: Seq<u8>, x: Seq<u8>)
    requires
        framer_wf::<S>(FramerState::Collecting { target: 3 }, buf),
        buf.len() < 3,
        x.len() > 0,
        buf.len() + x.len() >= 3,
        !S::spec_valid(spec_section_common_header((buf + x).subrange(0, 3))),
    ensures
        feed_equiv(
            framer_feed::<S>(FramerState::Collecting { target: 3 }, buf, x),
            framer_feed::<S>(FramerState::Idle, Seq::empty(), buf + x),
        ),
{
    let st = FramerState::Collecting { target: 3 };
    let bytes = buf + x;
    assert(bytes[0] == buf[0]);
    let r = framer_step::<S>(FramerState::Idle, Seq::empty(), bytes);
    let rf = framer_feed::<S>(r.state, r.buf, r.rest);
    assert(framer_feed::<S>(FramerState::Idle, Seq::empty(), bytes).delivered == r.delivered + rf.delivered);
    let l = framer_step::<S>(st, buf, x);
    let lf = framer_feed::<S>(l.state, l.buf, l.rest);
    assert(framer_feed::<S>(st, buf, x).delivered == l.delivered + lf.delivered);
    let take = 3 - buf.len();
    let nbuf = buf + x.subrange(0, take);
    assert(nbuf =~= bytes.subrange(0, 3));
    let h = spec_section_common_header(nbuf);
    let rest3 = bytes.subrange(3, bytes.len() as int);
    assert(l.rest =~= rest3);
    let sl = h.section_length;
    assert(l.state == (FramerState::Ignoring { remaining: sl }));
    if rest3.len() == 0 {
        assert(r.rest =~= Seq::<u8>::empty());
        assert(l.delivered + lf.delivered =~= r.delivered + rf.delivered);
    } else {
        let l2 = framer_step::<S>(l.state, l.buf, l.rest);
        let l2f = framer_feed::<S>(l2.state, l2.buf, l2.rest);
        assert(lf.delivered == l2.delivered + l2f.delivered);
        assert(l2.rest =~= r.rest);
        assert(l2.state == r.state);
        assert(l.delivered + lf.delivered =~= r.delivered + rf.delivered);
    }
}

/// The header completed by the input was accepted.
#[verifier::spinoff_prover]
proof fn lemma_collecting_header_accepted<S: SectionSyntax>(buf: Seq<u8>, x: Seq<u8>)
    requires
        framer_wf::<S>(FramerState::Collecting { target: 3 }, buf),
        buf.len() < 3,
        x.len() > 0,
        buf.len() + x.len() >= 3,
        S::spec_valid(spec_section_common_header((buf + x).subrange(0, 3))),
    ensures
        feed_equiv(
            framer_feed::<S>(FramerState::Collecting { target: 3 }, buf, x),
            framer_feed::<S>(FramerState::Idle, Seq::empty(), buf + x),
        ),
{
    let st = FramerState::Collecting { target: 3 };
    let bytes = buf + x;
    assert(bytes[0] == buf[0]);
    let r = framer_step::<S>(FramerState::Idle, Seq::empty(), bytes);
    let rf = framer_feed::<S>(r.state, r.buf, r.rest);
    assert(framer_feed::<S>(FramerState::Idle, Seq::empty(), bytes).delivered == r.delivered + rf.delivered);
    let l = framer_step::<S>(st, buf, x);
    let lf = framer_feed::<S>(l.state, l.buf, l.rest);
    assert(framer_feed::<S>(st, buf, x).delivered == l.delivered + lf.delivered);
    let take = 3 - buf.len();
    let nbuf = buf + x.subrange(0, take);
    assert(nbuf =~= bytes.subrange(0, 3));
    let h = spec_section_common_header(nbuf);
    let rest3 = bytes.subrange(3, bytes.len() as int);
    assert(l.rest =~= rest3);
    if h.section_length == 0 {
        assert(r.rest =~= rest3);
        assert(l.delivered =~= r.delivered);
    } else {
        let t2 = (3 + h.section_length) as usize;
        assert(framer_wf::<S>(FramerState::Collecting { target: t2 }, nbuf));
        lemma_collecting_with_header::<S>(t2, nbuf, rest3);
        assert(nbuf + rest3 =~= bytes);
        assert(l.delivered + lf.delivered =~= lf.delivered);
    }
}

/// A framer collecting the header of a section acts as an idle framer given the buffered
/// bytes ahead of its input.
proof fn lemma_collecting_header<S: SectionSyntax>(buf: Seq<u8>, x: Seq<u8>)
    requires
        framer_wf::<S>(FramerState::Collecting { target: 3 }, buf),
        buf.len() < 3,
    ensures
        feed_equiv(
            framer_feed::<S>(FramerState::Collecting { target: 3 }, buf, x),
            framer_feed::<S>(FramerState::Idle, Seq::empty(), buf + x),
        ),
{
    let st = FramerState::Collecting { target: 3 };
    let bytes = buf + x;
    assert(bytes[0] == buf[0]);
    if buf.len() + x.len() >= 3 && x.len() > 0 {
        if S::spec_valid(spec_section_common_header(bytes.subrange(0, 3))) {
            lemma_collecting_header_accepted::<S>(buf, x);
        } else {
            lemma_collecting_header_rejected::<S>(buf, x);
        }
    } else {
        let r = framer_step::<S>(FramerState::Idle, Seq::empty(), bytes);
        let rf = framer_feed::<S>(r.state, r.buf, r.rest);
        assert(framer_feed::<S>(FramerState::Idle, Seq::empty(), bytes).delivered == r.delivered
            + rf.delivered);
        assert(r.rest =~= Seq::<u8>::empty());
        if x.len() == 0 {
            assert(bytes =~= buf);
            assert(r.delivered + rf.delivered =~= Seq::<Seq<u8>>::empty());
        } else {
            let l = framer_step::<S>(st, buf, x);
            let lf = framer_feed::<S>(l.state, l.buf, l.rest);
            assert(framer_feed::<S>(st, buf, x).delivered == l.delivered + lf.delivered);
            assert(buf + x.subrange(0, x.len() as int) =~= bytes);
            assert(l.rest =~= Seq::<u8>::empty());
            assert(l.buf =~= r.buf);
            assert(l.delivered + lf.delivered =~= r.delivered + rf.delivered);
        }
    }
}

/// A collecting framer acts as an idle framer given the buffered bytes ahead of its input.
pub proof fn lemma_collecting_is_buffered_input<S: SectionSyntax>(t: usize, buf: Seq<u8>, x: Seq<u8>)
    requires
        framer_wf::<S>(FramerState::Collecting { target: t }, buf),
    ensures
        feed_equiv(
            framer_feed::<S>(FramerState::Collecting { target: t }, buf, x),
            framer_feed::<S>(FramerState::Idle, Seq::empty(), buf + x),
        ),
{
    if buf.len() >= 3 {
        lemma_collecting_with_header::<S>(t, buf, x);
    } else {
        lemma_collecting_header::<S>(buf, x);
    }
}

/// Feeding more data after equivalent outcomes gives equivalent outcomes.
proof fn lemma_feed_then_equiv<S: SectionSyntax>(x: FeedResult, y: FeedResult, b: Seq<u8>)
    requires
        feed_equiv(x, y),
    ensures
        feed_equiv(feed_then::<S>(x, b), feed_then::<S>(y, b)),
{
    lemma_feed_norm::<S>(x.state, y.state, x.buf, b);
}

/// The outcome of a step that delivers `d` and leaves the state `st` and the rest `rest`,
/// followed by feeding `b`.
proof fn lemma_step_then<S: SectionSyntax>(d: Seq<Seq<u8>>, st: FramerState, rest: Seq<u8>, b: Seq<u8>)
    requires
        !framer_feed::<S>(st, Seq::empty(), rest).stopped,
        feed_equiv(
            framer_feed::<S>(st, Seq::empty(), rest + b),
            feed_then::<S>(framer_feed::<S>(st, Seq::empty(), rest), b),
        ),
    ensures
        ({
            let f = framer_feed::<S>(st, Seq::empty(), rest);
            let g = framer_feed::<S>(st, Seq::empty(), rest + b);
            feed_equiv(
                FeedResult { state: g.state, buf: g.buf, delivered: d + g.delivered, stopped: g.stopped },
                feed_then::<S>(
                    FeedResult { state: f.state, buf: f.buf, delivered: d + f.delivered, stopped: f.stopped },
                    b,
                ),
            )
        }),
{
    let f = framer_feed::<S>(st, Seq::empty(), rest);
    let f2 = framer_feed::<S>(f.state, f.buf, b);
    assert(d + (f.delivered + f2.delivered) =~= (d + f.delivered) + f2.delivered);
}

/// The first piece ends inside a rejected section (or one being discarded), whose discarding
/// continues into the second piece.
#[verifier::spinoff_prover]
proof fn lemma_split_while_discarding<S: SectionSyntax>(st: FramerState, a: Seq<u8>, b: Seq<u8>)
    requires
        st is Idle || st is Ignoring,
        a.len() > 0,
        !framer_step::<S>(st, Seq::empty(), a).stop,
        framer_step::<S>(st, Seq::empty(), a).state is Ignoring,
        framer_step::<S>(st, Seq::empty(), a).rest.len() == 0,
        framer_step::<S>(st, Seq::empty(), a).buf.len() == 0,
        framer_step::<S>(st, Seq::empty(), a).delivered.len() == 0,
        b.len() > 0 ==> ({
            let sa = framer_step::<S>(st, Seq::empty(), a);
            let sab = framer_step::<S>(st, Seq::empty(), a + b);
            let sb = framer_step::<S>(sa.state, Seq::empty(), b);
            &&& sb.state == sab.state
            &&& sb.rest == sab.rest
            &&& sb.buf.len() == 0
            &&& sab.buf.len() == 0
            &&& !sab.stop
            &&& sab.delivered.len() == 0
            &&& sb.delivered.len() == 0
        }),
        b.len() == 0 ==> framer_step::<S>(st, Seq::empty(), a + b) == framer_step::<S>(st, Seq::empty(), a),
    ensures
        feed_equiv(
            framer_feed::<S>(st, Seq::empty(), a + b),
            feed_then::<S>(framer_feed::<S>(st, Seq::empty(), a), b),
        ),
{
    let e = Seq::<u8>::empty();
    let sa = framer_step::<S>(st, e, a);
    let sab = framer_step::<S>(st, e, a + b);
    assert(sa.rest =~= e);
    assert(sa.buf =~= e);
    assert(sa.delivered =~= Seq::<Seq<u8>>::empty());
    let fa = framer_feed::<S>(st, e, a);
    let fr = framer_feed::<S>(sa.state, sa.buf, sa.rest);
    assert(fr.state == sa.state && fr.buf == e && fr.delivered =~= Seq::<Seq<u8>>::empty());
    assert(fa.delivered == sa.delivered + fr.delivered);
    assert(fa.delivered =~= Seq::<Seq<u8>>::empty());
    if b.len() == 0 {
        assert(a + b =~= a);
        assert(Seq::<Seq<u8>>::empty() + Seq::<Seq<u8>>::empty() =~= Seq::<Seq<u8>>::empty());
    } else {
        let sb = framer_step::<S>(sa.state, e, b);
        assert(sb.buf =~= e);
        assert(sab.buf =~= e);
        assert(sb.delivered =~= Seq::<Seq<u8>>::empty());
        assert(sab.delivered =~= Seq::<Seq<u8>>::empty());
        let g = framer_feed::<S>(sab.state, e, sab.rest);
        assert(Seq::<Seq<u8>>::empty() + g.delivered =~= g.delivered);
        assert(Seq::<Seq<u8>>::empty() + (Seq::<Seq<u8>>::empty() + g.delivered) =~= g.delivered);
    }
}

/// The first piece ends inside a section (or its header) that the framer starts collecting.
#[verifier::spinoff_prover]
proof fn lemma_split_while_collecting<S: SectionSyntax>(a: Seq<u8>, b: Seq<u8>)
    requires
        a.len() > 0,
        framer_step::<S>(FramerState::Idle, Seq::empty(), a).state is Collecting,
        framer_step::<S>(FramerState::Idle, Seq::empty(), a).buf == a,
        framer_step::<S>(FramerState::Idle, Seq::empty(), a).rest.len() == 0,
        framer_step::<S>(FramerState::Idle, Seq::empty(), a).delivered.len() == 0,
        !framer_step::<S>(FramerState::Idle, Seq::empty(), a).stop,
        framer_wf::<S>(framer_step::<S>(FramerState::Idle, Seq::empty(), a).state, a),
    ensures
        feed_equiv(
            framer_feed::<S>(FramerState::Idle, Seq::empty(), a + b),
            feed_then::<S>(framer_feed::<S>(FramerState::Idle, Seq::empty(), a), b),
        ),
{
    let e = Seq::<u8>::empty();
    let sa = framer_step::<S>(FramerState::Idle, e, a);
    let t = sa.state->target;
    lemma_collecting_is_buffered_input::<S>(t, a, b);
    assert(sa.rest =~= e);
    assert(sa.delivered =~= Seq::<Seq<u8>>::empty());
    let fa = framer_feed::<S>(FramerState::Idle, e, a);
    let fr = framer_feed::<S>(sa.state, sa.buf, sa.rest);
    assert(fr.state == sa.state && fr.buf == a && fr.delivered =~= Seq::<Seq<u8>>::empty());
    assert(fa.delivered == sa.delivered + fr.delivered);
    assert(fa.delivered =~= Seq::<Seq<u8>>::empty());
    let f2 = framer_feed::<S>(sa.state, a, b);
    assert(Seq::<Seq<u8>>::empty() + f2.delivered =~= f2.delivered);
}

/// `true` when the first step of feeding `a`, and of feeding `a + b`, from the state `st`
/// takes the first `k` bytes of `a`, delivers the same sections and leaves the framer idle.
spec fn prefix_step<S: SectionSyntax>(st: FramerState, a: Seq<u8>, b: Seq<u8>, k: int) -> bool {
    let e = Seq::<u8>::empty();
    let sa = framer_step::<S>(st, e, a);
    let sab = framer_step::<S>(st, e, a + b);
    &&& 0 <= k <= a.len()
    &&& !sa.stop
    &&& !sab.stop
    &&& sa.state == FramerState::Idle
    &&& sab.state == FramerState::Idle
    &&& sa.buf == e
    &&& sab.buf == e
    &&& sa.rest == a.subrange(k, a.len() as int)
    &&& sab.rest == a.subrange(k, a.len() as int) + b
    &&& sa.delivered == sab.delivered
}

/// The whole section at the start of the input to an idle framer is handled by its first step.
#[verifier::spinoff_prover]
proof fn lemma_idle_prefix_step<S: SectionSyntax>(a: Seq<u8>, b: Seq<u8>)
    requires
        a.len() >= 3,
        a[0] != 0xff,
        3 + spec_section_common_header(a.subrange(0, 3)).section_length <= a.len(),
    ensures
        prefix_step::<S>(
            FramerState::Idle,
            a,
            b,
            3 + spec_section_common_header(a.subrange(0, 3)).section_length,
        ),
{
    let ab = a + b;
    assert(ab[0] == a[0]);
    assert(ab.subrange(0, 3) =~= a.subrange(0, 3));
    let h = spec_section_common_header(a.subrange(0, 3));
    let total = 3 + h.section_length;
    let sa = framer_step::<S>(FramerState::Idle, Seq::empty(), a);
    let sab = framer_step::<S>(FramerState::Idle, Seq::empty(), ab);
    assert(sab.rest =~= a.subrange(total, a.len() as int) + b);
    if S::spec_valid(h) {
        assert(ab.subrange(0, total) =~= a.subrange(0, total));
    }
    assert(sa.delivered =~= sab.delivered);
}

/// The rest of a rejected section at the start of the input is discarded by the first step.
#[verifier::spinoff_prover]
proof fn lemma_ignoring_prefix_step<S: SectionSyntax>(r: usize, a: Seq<u8>, b: Seq<u8>)
    requires
        r <= a.len(),
        a.len() > 0,
    ensures
        prefix_step::<S>(FramerState::Ignoring { remaining: r }, a, b, r as int),
{
    let sab = framer_step::<S>(FramerState::Ignoring { remaining: r }, Seq::empty(), a + b);
    assert(sab.rest =~= a.subrange(r as int, a.len() as int) + b);
}

/// The input to the rest of the framing, after a prefix step, holds no stuffing in place of a
/// section when the whole input holds none.
#[verifier::spinoff_prover]
proof fn lemma_prefix_step_not_stopped<S: SectionSyntax>(st: FramerState, a: Seq<u8>, b: Seq<u8>, k: int)
    requires
        a.len() > 0,
        prefix_step::<S>(st, a, b, k),
        !framer_feed::<S>(st, Seq::empty(), a).stopped,
    ensures
        !framer_feed::<S>(FramerState::Idle, Seq::empty(), a.subrange(k, a.len() as int)).stopped,
{
}

/// Combines a prefix step with the outcome for the rest of the input.
#[verifier::spinoff_prover]
proof fn lemma_prefix_step_then<S: SectionSyntax>(st: FramerState, a: Seq<u8>, b: Seq<u8>, k: int)
    requires
        a.len() > 0,
        prefix_step::<S>(st, a, b, k),
        !framer_feed::<S>(FramerState::Idle, Seq::empty(), a.subrange(k, a.len() as int)).stopped,
        feed_equiv(
            framer_feed::<S>(FramerState::Idle, Seq::empty(), a.subrange(k, a.len() as int) + b),
            feed_then::<S>(framer_feed::<S>(FramerState::Idle, Seq::empty(), a.subrange(k, a.len() as int)), b),
        ),
    ensures
        feed_equiv(
            framer_feed::<S>(st, Seq::empty(), a + b),
            feed_then::<S>(framer_feed::<S>(st, Seq::empty(), a), b),
        ),
{
    let a2 = a.subrange(k, a.len() as int);
    let sa = framer_step::<S>(st, Seq::empty(), a);
    assert((a + b).len() > 0);
    lemma_step_then::<S>(sa.delivered, FramerState::Idle, a2, b);
}

/// The first piece fed to an idle framer ends before the section it starts is complete.
#[verifier::spinoff_prover]
proof fn lemma_idle_terminal<S: SectionSyntax>(a: Seq<u8>, b: Seq<u8>)
    requires
        a.len() > 0,
        !framer_feed::<S>(FramerState::Idle, Seq::empty(), a).stopped,
        a.len() < 3 || 3 + spec_section_common_header(a.subrange(0, 3)).section_length > a.len(),
    ensures
        feed_equiv(
            framer_feed::<S>(FramerState::Idle, Seq::empty(), a + b),
            feed_then::<S>(framer_feed::<S>(FramerState::Idle, Seq::empty(), a), b),
        ),
{
    let e = Seq::<u8>::empty();
    let ab = a + b;
    assert(ab[0] == a[0]);
    let sa = framer_step::<S>(FramerState::Idle, e, a);
    let sab = framer_step::<S>(FramerState::Idle, e, ab);
    assert(!sa.stop);
    if b.len() == 0 {
        assert(ab =~= a);
    }
    if a.len() >= 3 {
        assert(ab.subrange(0, 3) =~= a.subrange(0, 3));
        let h = spec_section_common_header(a.subrange(0, 3));
        if !S::spec_valid(h) {
            if b.len() > 0 {
                let sb = framer_step::<S>(sa.state, e, b);
                assert(sb.rest =~= sab.rest);
            }
            lemma_split_while_discarding::<S>(FramerState::Idle, a, b);
        } else {
            assert(sa.buf =~= a);
            assert(framer_wf::<S>(sa.state, a)) by {
                assert(spec_section_common_header(a) == h);
            }
            lemma_split_while_collecting::<S>(a, b);
        }
    } else {
        assert(sa.buf =~= a);
        lemma_split_while_collecting::<S>(a, b);
    }
}

/// The first piece fed to a framer discarding a rejected section ends before the section does.
#[verifier::spinoff_prover]
proof fn lemma_ignoring_terminal<S: SectionSyntax>(r: usize, a: Seq<u8>, b: Seq<u8>)
    requires
        a.len() > 0,
        r > a.len(),
    ensures
        feed_equiv(
            framer_feed::<S>(FramerState::Ignoring { remaining: r }, Seq::empty(), a + b),
            feed_then::<S>(framer_feed::<S>(FramerState::Ignoring { remaining: r }, Seq::empty(), a), b),
        ),
{
    let e = Seq::<u8>::empty();
    let st = FramerState::Ignoring { remaining: r };
    let ab = a + b;
    let sa = framer_step::<S>(st, e, a);
    let sab = framer_step::<S>(st, e, ab);
    if b.len() == 0 {
        assert(ab =~= a);
    } else {
        let sb = framer_step::<S>(sa.state, e, b);
        assert(sb.rest =~= sab.rest);
    }
    lemma_split_while_discarding::<S>(st, a, b);
}

/// Splitting the data fed to an idle framer, or to one discarding a rejected section, into two
/// pieces changes nothing, as long as the first piece holds no stuffing in place of a section.
proof fn lemma_feed_split_idle<S: SectionSyntax>(st: FramerState, a: Seq<u8>, b: Seq<u8>)
    requires
        st is Idle || st is Ignoring,
        !framer_feed::<S>(st, Seq::empty(), a).stopped,
    ensures
        feed_equiv(
            framer_feed::<S>(st, Seq::empty(), a + b),
            feed_then::<S>(framer_feed::<S>(st, Seq::empty(), a), b),
        ),
    decreases a.len(), ignoring_rank(st),
{
    if a.len() == 0 {
        assert(a + b =~= b);
        let f2 = framer_feed::<S>(st, Seq::empty(), b);
        assert(Seq::<Seq<u8>>::empty() + f2.delivered =~= f2.delivered);
        return ;
    }
    match st {
        FramerState::Idle => {
            if a.len() >= 3 && 3 + spec_section_common_header(a.subrange(0, 3)).section_length
                <= a.len() {
                let k = 3 + spec_section_common_header(a.subrange(0, 3)).section_length;
                assert(a[0] != 0xff);
                lemma_idle_prefix_step::<S>(a, b);
                lemma_prefix_step_not_stopped::<S>(st, a, b, k);
                lemma_feed_split_idle::<S>(FramerState::Idle, a.subrange(k, a.len() as int), b);
                lemma_prefix_step_then::<S>(st, a, b, k);
            } else {
                lemma_idle_terminal::<S>(a, b);
            }
        },
        FramerState::Ignoring { remaining } => {
            if remaining <= a.len() {
                lemma_ignoring_prefix_step::<S>(remaining, a, b);
                lemma_prefix_step_not_stopped::<S>(st, a, b, remaining as int);
                lemma_feed_split_idle::<S>(FramerState::Idle, a.subrange(remaining as int, a.len() as int), b);
                lemma_prefix_step_then::<S>(st, a, b, remaining as int);
            } else {
                lemma_ignoring_terminal::<S>(remaining, a, b);
            }
        },
        _ => {},
    }
}

/// Equivalent states report the same problems for the same input.
proof fn lemma_feed_norm_errors<S: SectionSyntax>(pid: packet::Pid, st1: FramerState, st2: FramerState, buf: Seq<u8>, x: Seq<u8>)
    requires
        norm_state(st1) == norm_state(st2),
    ensures
        framer_feed_errors::<S>(pid, st1, buf, x) == framer_feed_errors::<S>(pid, st2, buf, x),
{
    if st1 != st2 && x.len() > 0 {
        let ign = FramerState::Ignoring { remaining: 0 };
        let s = framer_step::<S>(ign, buf, x);
        assert(s.rest =~= x);
        let f = framer_feed_errors::<S>(pid, FramerState::Idle, buf, x);
        assert(framer_step_errors::<S>(pid, ign, buf, x) =~= Seq::<DemuxError>::empty());
        assert(framer_feed_errors::<S>(pid, ign, buf, x) == Seq::<DemuxError>::empty() + f);
        assert(Seq::<DemuxError>::empty() + f =~= f);
    }
}

/// A framer collecting a section whose header it holds reports what an idle framer reports
/// given the buffered bytes ahead of its input.
#[verifier::spinoff_prover]
proof fn lemma_collecting_with_header_errors<S: SectionSyntax>(pid: packet::Pid, t: usize, buf: Seq<u8>, x: Seq<u8>)
    requires
        framer_wf::<S>(FramerState::Collecting { target: t }, buf),
        buf.len() >= 3,
    ensures
        framer_feed_errors::<S>(pid, FramerState::Collecting { target: t }, buf, x)
            == framer_feed_errors::<S>(pid, FramerState::Idle, Seq::empty(), buf + x),
{
    let e = Seq::<u8>::empty();
    let none = Seq::<DemuxError>::empty();
    let st = FramerState::Collecting { target: t };
    let bytes = buf + x;
    let h = spec_section_common_header(buf);
    assert(spec_section_common_header(bytes.subrange(0, 3)) == h);
    assert(bytes[0] == buf[0]);
    let r = framer_step::<S>(FramerState::Idle, e, bytes);
    assert(framer_step_errors::<S>(pid, FramerState::Idle, e, bytes) =~= none);
    let rf = framer_feed_errors::<S>(pid, r.state, r.buf, r.rest);
    assert(framer_feed_errors::<S>(pid, FramerState::Idle, e, bytes) == none + rf);
    assert(none + rf =~= rf);
    if x.len() == 0 {
        assert(bytes =~= buf);
        assert(r.rest =~= e);
    } else {
        let l = framer_step::<S>(st, buf, x);
        assert(framer_step_errors::<S>(pid, st, buf, x) =~= none);
        let lf = framer_feed_errors::<S>(pid, l.state, l.buf, l.rest);
        assert(framer_feed_errors::<S>(pid, st, buf, x) == none + lf);
        assert(none + lf =~= lf);
        let take = if t - buf.len() < x.len() {
            t - buf.len()
        } else {
            x.len() as int
        };
        let nbuf = buf + x.subrange(0, take);
        if bytes.len() >= t {
            assert(nbuf =~= bytes.subrange(0, t as int));
            assert(l.rest =~= r.rest);
            assert(l.state == r.state);
            assert(l.buf =~= r.buf);
        } else {
            assert(nbuf =~= bytes);
            assert(l.rest =~= e);
            assert(r.rest =~= e);
            assert(l.state == r.state);
            assert(l.buf =~= r.buf);
        }
    }
}

/// The header completed by the input was rejected: the same problem is reported as by an idle
/// framer given the buffered bytes ahead of the input.
#[verifier::spinoff_prover]
proof fn lemma_collecting_header_rejected_errors<S: SectionSyntax>(pid: packet::Pid, buf: Seq<u8>, x: Seq<u8>)
    requires
        framer_wf::<S>(FramerState::Collecting { target: 3 }, buf),
        buf.len() < 3,
        x.len() > 0,
        buf.len() + x.len() >= 3,
        !S::spec_valid(spec_section_common_header((buf + x).subrange(0, 3))),
    ensures
        framer_feed_errors::<S>(pid, FramerState::Collecting { target: 3 }, buf, x)
            == framer_feed_errors::<S>(pid, FramerState::Idle, Seq::empty(), buf + x),
{
    let e = Seq::<u8>::empty();
    let none = Seq::<DemuxError>::empty();
    let st = FramerState::Collecting { target: 3 };
    let bytes = buf + x;
    assert(bytes[0] == buf[0]);
    let take = 3 - buf.len();
    let nbuf = buf + x.subrange(0, take);
    assert(nbuf =~= bytes.subrange(0, 3));
    let h = spec_section_common_header(nbuf);
    let rej = seq![S::spec_rejection(pid, h)];
    let r = framer_step::<S>(FramerState::Idle, e, bytes);
    assert(framer_step_errors::<S>(pid, FramerState::Idle, e, bytes) == rej);
    let rf = framer_feed_errors::<S>(pid, r.state, r.buf, r.rest);
    assert(framer_feed_errors::<S>(pid, FramerState::Idle, e, bytes) == rej + rf);
    let l = framer_step::<S>(st, buf, x);
    assert(framer_step_errors::<S>(pid, st, buf, x) == rej);
    let lf = framer_feed_errors::<S>(pid, l.state, l.buf, l.rest);
    assert(framer_feed_errors::<S>(pid, st, buf, x) == rej + lf);
    let rest3 = bytes.subrange(3, bytes.len() as int);
    assert(l.rest =~= rest3);
    let sl = h.section_length;
    assert(l.state == (FramerState::Ignoring { remaining: sl }));
    if rest3.len() == 0 {
        assert(r.rest =~= e);
        assert(lf =~= none);
        assert(rf =~= none);
    } else {
        let l2 = framer_step::<S>(l.state, l.buf, l.rest);
        assert(framer_step_errors::<S>(pid, l.state, l.buf, l.rest) =~= none);
        let l2f = framer_feed_errors::<S>(pid, l2.state, l2.buf, l2.rest);
        assert(lf == none + l2f);
        assert(none + l2f =~= l2f);
        assert(l2.rest =~= r.rest);
        assert(l2.state == r.state);
        assert(l2.buf =~= r.buf);
    }
}

/// The header completed by the input was accepted: no problem is reported for it, as by an
/// idle framer given the buffered bytes ahead of the input.
#[verifier::spinoff_prover]
proof fn lemma_collecting_header_accepted_errors<S: SectionSyntax>(pid: packet::Pid, buf: Seq<u8>, x: Seq<u8>)
    requires
        framer_wf::<S>(FramerState::Collecting { target: 3 }, buf),
        buf.len() < 3,
        x.len() > 0,
        buf.len() + x.len() >= 3,
        S::spec_valid(spec_section_common_header((buf + x).subrange(0, 3))),
    ensures
        framer_feed_errors::<S>(pid, FramerState::Collecting { target: 3 }, buf, x)
            == framer_feed_errors::<S>(pid, FramerState::Idle, Seq::empty(), buf + x),
{
    let e = Seq::<u8>::empty();
    let none = Seq::<DemuxError>::empty();
    let st = FramerState::Collecting { target: 3 };
    let bytes = buf + x;
    assert(bytes[0] == buf[0]);
    let take = 3 - buf.len();
    let nbuf = buf + x.subrange(0, take);
    assert(nbuf =~= bytes.subrange(0, 3));
    let h = spec_section_common_header(nbuf);
    let r = framer_step::<S>(FramerState::Idle, e, bytes);
    assert(framer_step_errors::<S>(pid, FramerState::Idle, e, bytes) =~= none);
    let rf = framer_feed_errors::<S>(pid, r.state, r.buf, r.rest);
    assert(framer_feed_errors::<S>(pid, FramerState::Idle, e, bytes) == none + rf);
    assert(none + rf =~= rf);
    let l = framer_step::<S>(st, buf, x);
    assert(framer_step_errors::<S>(pid, st, buf, x) =~= none);
    let lf = framer_feed_errors::<S>(pid, l.state, l.buf, l.rest);
    assert(framer_feed_errors::<S>(pid, st, buf, x) == none + lf);
    assert(none + lf =~= lf);
    let rest3 = bytes.subrange(3, bytes.len() as int);
    assert(l.rest =~= rest3);
    if h.section_length == 0 {
        assert(r.rest =~= rest3);
        assert(l.buf =~= r.buf);
    } else {
        let t2 = (3 + h.section_length) as usize;
        assert(framer_wf::<S>(FramerState::Collecting { target: t2 }, nbuf));
        lemma_collecting_with_header_errors::<S>(pid, t2, nbuf, rest3);
        assert(nbuf + rest3 =~= bytes);
    }
}

/// A framer collecting the header of a section reports what an idle framer reports given the
/// buffered bytes ahead of its input.
proof fn lemma_collecting_header_errors<S: SectionSyntax>(pid: packet::Pid, buf: Seq<u8>, x: Seq<u8>)
    requires
        framer_wf::<S>(FramerState::Collecting { target: 3 }, buf),
        buf.len() < 3,
    ensures
        framer_feed_errors::<S>(pid, FramerState::Collecting { target: 3 }, buf, x)
            == framer_feed_errors::<S>(pid, FramerState::Idle, Seq::empty(), buf + x),
{
    let e = Seq::<u8>::empty();
    let none = Seq::<DemuxError>::empty();
    let st = FramerState::Collecting { target: 3 };
    let bytes = buf + x;
    assert(bytes[0] == buf[0]);
    if buf.len() + x.len() >= 3 && x.len() > 0 {
        if S::spec_valid(spec_section_common_header(bytes.subrange(0, 3))) {
            lemma_collecting_header_accepted_errors::<S>(pid, buf, x);
        } else {
            lemma_collecting_header_rejected_errors::<S>(pid, buf, x);
        }
    } else {
        let r = framer_step::<S>(FramerState::Idle, e, bytes);
        assert(framer_step_errors::<S>(pid, FramerState::Idle, e, bytes) =~= none);
        assert(r.rest =~= e);
        let rf = framer_feed_errors::<S>(pid, r.state, r.buf, r.rest);
        assert(rf =~= none);
        assert(framer_feed_errors::<S>(pid, FramerState::Idle, e, bytes) =~= none);
        if x.len() == 0 {
            assert(bytes =~= buf);
        } else {
            let l = framer_step::<S>(st, buf, x);
            assert(buf + x.subrange(0, x.len() as int) =~= bytes);
            assert(framer_step_errors::<S>(pid, st, buf, x) =~= none);
            assert(l.rest =~= e);
            let lf = framer_feed_errors::<S>(pid, l.state, l.buf, l.rest);
            assert(lf =~= none);
            assert(framer_feed_errors::<S>(pid, st, buf, x) =~= none);
        }
    }
}

/// A collecting framer reports what an idle framer reports given the buffered bytes ahead of
/// its input.
proof fn lemma_collecting_errors<S: SectionSyntax>(pid: packet::Pid, t: usize, buf: Seq<u8>, x: Seq<u8>)
    requires
        framer_wf::<S>(FramerState::Collecting { target: t }, buf),
    ensures
        framer_feed_errors::<S>(pid, FramerState::Collecting { target: t }, buf, x)
            == framer_feed_errors::<S>(pid, FramerState::Idle, Seq::empty(), buf + x),
{
    if buf.len() >= 3 {
        lemma_collecting_with_header_errors::<S>(pid, t, buf, x);
    } else {
        lemma_collecting_header_errors::<S>(pid, buf, x);
    }
}

/// `true` when feeding `a + b` to a framer in the state `st`, holding `buf`, reports the
/// problems reported while feeding it `a`, followed by those reported while feeding `b`
/// afterwards.
spec fn errors_split<S: SectionSyntax>(pid: packet::Pid, st: FramerState, buf: Seq<u8>, a: Seq<u8>, b: Seq<u8>) -> bool {
    let fa = framer_feed::<S>(st, buf, a);
    framer_feed_errors::<S>(pid, st, buf, a + b) == framer_feed_errors::<S>(pid, st, buf, a)
        + framer_feed_errors::<S>(pid, fa.state, fa.buf, b)
}

/// The first piece ends inside a rejected section (or one being discarded), whose discarding
/// continues into the second piece.
#[verifier::spinoff_prover]
proof fn lemma_split_while_discarding_errors<S: SectionSyntax>(pid: packet::Pid, st: FramerState, a: Seq<u8>, b: Seq<u8>)
    requires
        st is Idle || st is Ignoring,
        a.len() > 0,
        !framer_step::<S>(st, Seq::empty(), a).stop,
        framer_step::<S>(st, Seq::empty(), a).state is Ignoring,
        framer_step::<S>(st, Seq::empty(), a).rest.len() == 0,
        framer_step::<S>(st, Seq::empty(), a).buf.len() == 0,
        framer_step_errors::<S>(pid, st, Seq::empty(), a + b) == framer_step_errors::<S>(
            pid,
            st,
            Seq::empty(),
            a,
        ),
        b.len() > 0 ==> ({
            let sa = framer_step::<S>(st, Seq::empty(), a);
            let sab = framer_step::<S>(st, Seq::empty(), a + b);
            let sb = framer_step::<S>(sa.state, Seq::empty(), b);
            &&& sb.state == sab.state
            &&& sb.rest == sab.rest
            &&& sb.buf.len() == 0
            &&& sab.buf.len() == 0
            &&& !sab.stop
        }),
        b.len() == 0 ==> framer_step::<S>(st, Seq::empty(), a + b) == framer_step::<S>(st, Seq::empty(), a),
    ensures
        errors_split::<S>(pid, st, Seq::empty(), a, b),
{
    let e = Seq::<u8>::empty();
    let none = Seq::<DemuxError>::empty();
    let sa = framer_step::<S>(st, e, a);
    let sab = framer_step::<S>(st, e, a + b);
    let ea = framer_step_errors::<S>(pid, st, e, a);
    assert(sa.rest =~= e);
    assert(sa.buf =~= e);
    let fa = framer_feed::<S>(st, e, a);
    let fr = framer_feed::<S>(sa.state, sa.buf, sa.rest);
    assert(fr.state == sa.state && fr.buf == e);
    assert(fa.state == fr.state && fa.buf == fr.buf);
    assert(framer_feed_errors::<S>(pid, sa.state, sa.buf, sa.rest) =~= none);
    assert(framer_feed_errors::<S>(pid, st, e, a) == ea + none);
    assert(ea + none =~= ea);
    if b.len() == 0 {
        assert(a + b =~= a);
        assert(framer_feed_errors::<S>(pid, fa.state, fa.buf, b) =~= none);
    } else {
        let sb = framer_step::<S>(sa.state, e, b);
        assert(sb.buf =~= e);
        assert(sab.buf =~= e);
        assert(framer_step_errors::<S>(pid, sa.state, e, b) =~= none);
        let g = framer_feed_errors::<S>(pid, sab.state, e, sab.rest);
        assert(framer_feed_errors::<S>(pid, sa.state, e, b) == none + g);
        assert(none + g =~= g);
        assert(framer_feed_errors::<S>(pid, st, e, a + b) == ea + g);
    }
}

/// The first piece ends inside a section (or its header) that the framer starts collecting.
#[verifier::spinoff_prover]
proof fn lemma_split_while_collecting_errors<S: SectionSyntax>(pid: packet::Pid, a: Seq<u8>, b: Seq<u8>)
    requires
        a.len() > 0,
        framer_step::<S>(FramerState::Idle, Seq::empty(), a).state is Collecting,
        framer_step::<S>(FramerState::Idle, Seq::empty(), a).buf == a,
        framer_step::<S>(FramerState::Idle, Seq::empty(), a).rest.len() == 0,
        !framer_step::<S>(FramerState::Idle, Seq::empty(), a).stop,
        framer_wf::<S>(framer_step::<S>(FramerState::Idle, Seq::empty(), a).state, a),
    ensures
        errors_split::<S>(pid, FramerState::Idle, Seq::empty(), a, b),
{
    let e = Seq::<u8>::empty();
    let none = Seq::<DemuxError>::empty();
    let sa = framer_step::<S>(FramerState::Idle, e, a);
    let t = sa.state->target;
    lemma_collecting_errors::<S>(pid, t, a, b);
    assert(sa.rest =~= e);
    assert(framer_step_errors::<S>(pid, FramerState::Idle, e, a) =~= none);
    let fa = framer_feed::<S>(FramerState::Idle, e, a);
    let fr = framer_feed::<S>(sa.state, sa.buf, sa.rest);
    assert(fr.state == sa.state && fr.buf == a);
    assert(fa.state == fr.state && fa.buf == fr.buf);
    assert(framer_feed_errors::<S>(pid, sa.state, sa.buf, sa.rest) =~= none);
    assert(framer_feed_errors::<S>(pid, FramerState::Idle, e, a) =~= none);
    let f2 = framer_feed_errors::<S>(pid, sa.state, a, b);
    assert(none + f2 =~= f2);
}

/// Combines a prefix step with the problems reported for the rest of the input.
#[verifier::spinoff_prover]
proof fn lemma_prefix_step_then_errors<S: SectionSyntax>(pid: packet::Pid, st: FramerState, a: Seq<u8>, b: Seq<u8>, k: int)
    requires
        a.len() > 0,
        prefix_step::<S>(st, a, b, k),
        framer_step_errors::<S>(pid, st, Seq::empty(), a + b) == framer_step_errors::<S>(
            pid,
            st,
            Seq::empty(),
            a,
        ),
        errors_split::<S>(pid, FramerState::Idle, Seq::empty(), a.subrange(k, a.len() as int), b),
    ensures
        errors_split::<S>(pid, st, Seq::empty(), a, b),
{
    let e = Seq::<u8>::empty();
    let a2 = a.subrange(k, a.len() as int);
    let sa = framer_step::<S>(st, e, a);
    let sab = framer_step::<S>(st, e, a + b);
    assert((a + b).len() > 0);
    let ea = framer_step_errors::<S>(pid, st, e, a);
    let x = framer_feed_errors::<S>(pid, FramerState::Idle, e, a2);
    let fa2 = framer_feed::<S>(FramerState::Idle, e, a2);
    let y = framer_feed_errors::<S>(pid, fa2.state, fa2.buf, b);
    assert(framer_feed_errors::<S>(pid, st, e, a) == ea + x);
    assert(framer_feed_errors::<S>(pid, st, e, a + b) == ea + framer_feed_errors::<S>(
        pid,
        FramerState::Idle,
        e,
        a2 + b,
    ));
    let fa = framer_feed::<S>(st, e, a);
    assert(fa.state == fa2.state && fa.buf == fa2.buf);
    assert(ea + (x + y) =~= (ea + x) + y);
}

/// The first step of an idle framer reports the same problem for a piece as for that piece
/// followed by more data, once the piece holds a section header.
proof fn lemma_idle_step_errors_prefix<S: SectionSyntax>(pid: packet::Pid, a: Seq<u8>, b: Seq<u8>)
    requires
        a.len() >= 3,
    ensures
        framer_step_errors::<S>(pid, FramerState::Idle, Seq::empty(), a + b) == framer_step_errors::<S>(
            pid,
            FramerState::Idle,
            Seq::empty(),
            a,
        ),
{
    let ab = a + b;
    assert(ab[0] == a[0]);
    assert(ab.subrange(0, 3) =~= a.subrange(0, 3));
}

/// The first piece fed to an idle framer ends before the section it starts is complete.
#[verifier::spinoff_prover]
proof fn lemma_idle_terminal_errors<S: SectionSyntax>(pid: packet::Pid, a: Seq<u8>, b: Seq<u8>)
    requires
        a.len() > 0,
        !framer_feed::<S>(FramerState::Idle, Seq::empty(), a).stopped,
        a.len() < 3 || 3 + spec_section_common_header(a.subrange(0, 3)).section_length > a.len(),
    ensures
        errors_split::<S>(pid, FramerState::Idle, Seq::empty(), a, b),
{
    let e = Seq::<u8>::empty();
    let ab = a + b;
    assert(ab[0] == a[0]);
    let sa = framer_step::<S>(FramerState::Idle, e, a);
    let sab = framer_step::<S>(FramerState::Idle, e, ab);
    assert(!sa.stop);
    if b.len() == 0 {
        assert(ab =~= a);
    }
    if a.len() >= 3 {
        assert(ab.subrange(0, 3) =~= a.subrange(0, 3));
        let h = spec_section_common_header(a.subrange(0, 3));
        lemma_idle_step_errors_prefix::<S>(pid, a, b);
        if !S::spec_valid(h) {
            if b.len() > 0 {
                let sb = framer_step::<S>(sa.state, e, b);
                assert(sb.rest =~= sab.rest);
            }
            lemma_split_while_discarding_errors::<S>(pid, FramerState::Idle, a, b);
        } else {
            assert(sa.buf =~= a);
            assert(framer_wf::<S>(sa.state, a)) by {
                assert(spec_section_common_header(a) == h);
            }
            lemma_split_while_collecting_errors::<S>(pid, a, b);
        }
    } else {
        assert(sa.buf =~= a);
        lemma_split_while_collecting_errors::<S>(pid, a, b);
    }
}

/// The first piece fed to a framer discarding a rejected section ends before the section does.
#[verifier::spinoff_prover]
proof fn lemma_ignoring_terminal_errors<S: SectionSyntax>(pid: packet::Pid, r: usize, a: Seq<u8>, b: Seq<u8>)
    requires
        a.len() > 0,
        r > a.len(),
    ensures
        errors_split::<S>(pid, FramerState::Ignoring { remaining: r }, Seq::empty(), a, b),
{
    let e = Seq::<u8>::empty();
    let st = FramerState::Ignoring { remaining: r };
    let ab = a + b;
    let sa = framer_step::<S>(st, e, a);
    let sab = framer_step::<S>(st, e, ab);
    assert(framer_step_errors::<S>(pid, st, e, ab) =~= framer_step_errors::<S>(pid, st, e, a));
    if b.len() == 0 {
        assert(ab =~= a);
    } else {
        let sb = framer_step::<S>(sa.state, e, b);
        assert(sb.rest =~= sab.rest);
    }
    lemma_split_while_discarding_errors::<S>(pid, st, a, b);
}

/// Splitting the data fed to an idle framer, or to one discarding a rejected section, into two
/// pieces changes none of the problems reported, as long as the first piece holds no stuffing
/// in place of a section.
proof fn lemma_feed_split_idle_errors<S: SectionSyntax>(pid: packet::Pid, st: FramerState, a: Seq<u8>, b: Seq<u8>)
    requires
        st is Idle || st is Ignoring,
        !framer_feed::<S>(st, Seq::empty(), a).stopped,
    ensures
        errors_split::<S>(pid, st, Seq::empty(), a, b),
    decreases a.len(), ignoring_rank(st),
{
    let e = Seq::<u8>::empty();
    if a.len() == 0 {
        assert(a + b =~= b);
        let f2 = framer_feed_errors::<S>(pid, st, e, b);
        assert(Seq::<DemuxError>::empty() + f2 =~= f2);
        return ;
    }
    match st {
        FramerState::Idle => {
            if a.len() >= 3 && 3 + spec_section_common_header(a.subrange(0, 3)).section_length
                <= a.len() {
                let k = 3 + spec_section_common_header(a.subrange(0, 3)).section_length;
                assert(a[0] != 0xff);
                lemma_idle_prefix_step::<S>(a, b);
                lemma_idle_step_errors_prefix::<S>(pid, a, b);
                lemma_prefix_step_not_stopped::<S>(st, a, b, k);
                lemma_feed_split_idle_errors::<S>(pid, FramerState::Idle, a.subrange(k, a.len() as int), b);
                lemma_prefix_step_then_errors::<S>(pid, st, a, b, k);
            } else {
                lemma_idle_terminal_errors::<S>(pid, a, b);
            }
        },
        FramerState::Ignoring { remaining } => {
            if remaining <= a.len() {
                lemma_ignoring_prefix_step::<S>(remaining, a, b);
                assert(framer_step_errors::<S>(pid, st, e, a + b) =~= framer_step_errors::<S>(pid, st, e, a));
                lemma_prefix_step_not_stopped::<S>(st, a, b, remaining as int);
                lemma_feed_split_idle_errors::<S>(pid, FramerState::Idle, a.subrange(remaining as int, a.len() as int), b);
                lemma_prefix_step_then_errors::<S>(pid, st, a, b, remaining as int);
            } else {
                lemma_ignoring_terminal_errors::<S>(pid, remaining, a, b);
            }
        },
        _ => {},
    }
}

/// Equivalent states make the same calls for the same input.
proof fn lemma_feed_norm_calls<S: SectionSyntax>(pid: packet::Pid, st1: FramerState, st2: FramerState, buf: Seq<u8>, x: Seq<u8>)
    requires
        norm_state(st1) == norm_state(st2),
    ensures
        framer_feed_calls::<S>(pid, st1, buf, x) == framer_feed_calls::<S>(pid, st2, buf, x),
{
    if st1 != st2 && x.len() > 0 {
        let ign = FramerState::Ignoring { remaining: 0 };
        let s = framer_step::<S>(ign, buf, x);
        assert(s.rest =~= x);
        let f = framer_feed_calls::<S>(pid, FramerState::Idle, buf, x);
        assert(framer_step_calls::<S>(pid, ign, buf, x) =~= Seq::<FramerCall>::empty());
        assert(framer_feed_calls::<S>(pid, ign, buf, x) == Seq::<FramerCall>::empty() + f);
        assert(Seq::<FramerCall>::empty() + f =~= f);
    }
}

/// A framer collecting a section whose header it holds makes the calls that an idle framer
/// makes given the buffered bytes ahead of its input.
#[verifier::spinoff_prover]
proof fn lemma_collecting_with_header_calls<S: SectionSyntax>(pid: packet::Pid, t: usize, buf: Seq<u8>, x: Seq<u8>)
    requires
        framer_wf::<S>(FramerState::Collecting { target: t }, buf),
        buf.len() >= 3,
    ensures
        framer_feed_calls::<S>(pid, FramerState::Collecting { target: t }, buf, x)
            == framer_feed_calls::<S>(pid, FramerState::Idle, Seq::empty(), buf + x),
{
    let e = Seq::<u8>::empty();
    let none = Seq::<FramerCall>::empty();
    let st = FramerState::Collecting { target: t };
    let bytes = buf + x;
    let h = spec_section_common_header(buf);
    assert(spec_section_common_header(bytes.subrange(0, 3)) == h);
    assert(bytes[0] == buf[0]);
    let r = framer_step::<S>(FramerState::Idle, e, bytes);
    let rc = framer_step_calls::<S>(pid, FramerState::Idle, e, bytes);
    assert(framer_step_errors::<S>(pid, FramerState::Idle, e, bytes) =~= Seq::<DemuxError>::empty());
    let rf = framer_feed_calls::<S>(pid, r.state, r.buf, r.rest);
    assert(framer_feed_calls::<S>(pid, FramerState::Idle, e, bytes) == rc + rf);
    if x.len() == 0 {
        assert(bytes =~= buf);
        assert(r.rest =~= e);
        assert(r.delivered =~= Seq::<Seq<u8>>::empty());
        assert(rc =~= none);
        assert(none + rf =~= rf);
    } else {
        let l = framer_step::<S>(st, buf, x);
        let lc = framer_step_calls::<S>(pid, st, buf, x);
        assert(framer_step_errors::<S>(pid, st, buf, x) =~= Seq::<DemuxError>::empty());
        let lf = framer_feed_calls::<S>(pid, l.state, l.buf, l.rest);
        assert(framer_feed_calls::<S>(pid, st, buf, x) == lc + lf);
        let take = if t - buf.len() < x.len() {
            t - buf.len()
        } else {
            x.len() as int
        };
        let nbuf = buf + x.subrange(0, take);
        if bytes.len() >= t {
            assert(nbuf =~= bytes.subrange(0, t as int));
            assert(l.rest =~= r.rest);
            assert(l.state == r.state);
            assert(l.buf =~= r.buf);
            assert(l.delivered =~= r.delivered);
        } else {
            assert(nbuf =~= bytes);
            assert(l.rest =~= e);
            assert(r.rest =~= e);
            assert(l.state == r.state);
            assert(l.buf =~= r.buf);
            assert(l.delivered =~= r.delivered);
        }
        assert(lc =~= rc);
    }
}

/// The header completed by the input was rejected: the same problem is reported, and the same
/// calls made, as by an idle framer given the buffered bytes ahead of the input.
#[verifier::spinoff_prover]
proof fn lemma_collecting_header_rejected_calls<S: SectionSyntax>(pid: packet::Pid, buf: Seq<u8>, x: Seq<u8>)
    requires
        framer_wf::<S>(FramerState::Collecting { target: 3 }, buf),
        buf.len() < 3,
        x.len() > 0,
        buf.len() + x.len() >= 3,
        !S::spec_valid(spec_section_common_header((buf + x).subrange(0, 3))),
    ensures
        framer_feed_calls::<S>(pid, FramerState::Collecting { target: 3 }, buf, x)
            == framer_feed_calls::<S>(pid, FramerState::Idle, Seq::empty(), buf + x),
{
    let e = Seq::<u8>::empty();
    let none = Seq::<FramerCall>::empty();
    let st = FramerState::Collecting { target: 3 };
    let bytes = buf + x;
    assert(bytes[0] == buf[0]);
    let take = 3 - buf.len();
    let nbuf = buf + x.subrange(0, take);
    assert(nbuf =~= bytes.subrange(0, 3));
    let h = spec_section_common_header(nbuf);
    let rej = seq![FramerCall::Error(S::spec_rejection(pid, h))];
    let r = framer_step::<S>(FramerState::Idle, e, bytes);
    assert(framer_step_calls::<S>(pid, FramerState::Idle, e, bytes) =~= rej);
    let rf = framer_feed_calls::<S>(pid, r.state, r.buf, r.rest);
    assert(framer_feed_calls::<S>(pid, FramerState::Idle, e, bytes) == rej + rf);
    let l = framer_step::<S>(st, buf, x);
    assert(framer_step_calls::<S>(pid, st, buf, x) =~= rej);
    let lf = framer_feed_calls::<S>(pid, l.state, l.buf, l.rest);
    assert(framer_feed_calls::<S>(pid, st, buf, x) == rej + lf);
    let rest3 = bytes.subrange(3, bytes.len() as int);
    assert(l.rest =~= rest3);
    let sl = h.section_length;
    assert(l.state == (FramerState::Ignoring { remaining: sl }));
    if rest3.len() == 0 {
        assert(r.rest =~= e);
        assert(lf =~= none);
        assert(rf =~= none);
    } else {
        let l2 = framer_step::<S>(l.state, l.buf, l.rest);
        assert(framer_step_calls::<S>(pid, l.state, l.buf, l.rest) =~= none);
        let l2f = framer_feed_calls::<S>(pid, l2.state, l2.buf, l2.rest);
        assert(lf == none + l2f);
        assert(none + l2f =~= l2f);
        assert(l2.rest =~= r.rest);
        assert(l2.state == r.state);
        assert(l2.buf =~= r.buf);
    }
}

/// The header completed by the input was accepted: the calls made are those of an idle framer
/// given the buffered bytes ahead of the input.
#[verifier::spinoff_prover]
proof fn lemma_collecting_header_accepted_calls<S: SectionSyntax>(pid: packet::Pid, buf: Seq<u8>, x: Seq<u8>)
    requires
        framer_wf::<S>(FramerState::Collecting { target: 3 }, buf),
        buf.len() < 3,
        x.len() > 0,
        buf.len() + x.len() >= 3,
        S::spec_valid(spec_section_common_header((buf + x).subrange(0, 3))),
    ensures
        framer_feed_calls::<S>(pid, FramerState::Collecting { target: 3 }, buf, x)
            == framer_feed_calls::<S>(pid, FramerState::Idle, Seq::empty(), buf + x),
{
    let e = Seq::<u8>::empty();
    let none = Seq::<FramerCall>::empty();
    let st = FramerState::Collecting { target: 3 };
    let bytes = buf + x;
    assert(bytes[0] == buf[0]);
    let take = 3 - buf.len();
    let nbuf = buf + x.subrange(0, take);
    assert(nbuf =~= bytes.subrange(0, 3));
    let h = spec_section_common_header(nbuf);
    let l = framer_step::<S>(st, buf, x);
    let lc = framer_step_calls::<S>(pid, st, buf, x);
    assert(framer_step_errors::<S>(pid, st, buf, x) =~= Seq::<DemuxError>::empty());
    let lf = framer_feed_calls::<S>(pid, l.state, l.buf, l.rest);
    assert(framer_feed_calls::<S>(pid, st, buf, x) == lc + lf);
    let rest3 = bytes.subrange(3, bytes.len() as int);
    assert(l.rest =~= rest3);
    if h.section_length == 0 {
        let r = framer_step::<S>(FramerState::Idle, e, bytes);
        let rc = framer_step_calls::<S>(pid, FramerState::Idle, e, bytes);
        assert(framer_step_errors::<S>(pid, FramerState::Idle, e, bytes) =~= Seq::<DemuxError>::empty());
        let rf = framer_feed_calls::<S>(pid, r.state, r.buf, r.rest);
        assert(framer_feed_calls::<S>(pid, FramerState::Idle, e, bytes) == rc + rf);
        assert(r.rest =~= rest3);
        assert(l.buf =~= r.buf);
        assert(l.delivered =~= r.delivered);
        assert(lc =~= rc);
    } else {
        assert(l.delivered =~= Seq::<Seq<u8>>::empty());
        assert(lc =~= none);
        assert(none + lf =~= lf);
        let t2 = (3 + h.section_length) as usize;
        assert(framer_wf::<S>(FramerState::Collecting { target: t2 }, nbuf));
        lemma_collecting_with_header_calls::<S>(pid, t2, nbuf, rest3);
        assert(nbuf + rest3 =~= bytes);
    }
}

/// A framer collecting the header of a section makes the calls that an idle framer makes given
/// the buffered bytes ahead of its input.
proof fn lemma_collecting_header_calls<S: SectionSyntax>(pid: packet::Pid, buf: Seq<u8>, x: Seq<u8>)
    requires
        framer_wf::<S>(FramerState::Collecting { target: 3 }, buf),
        buf.len() < 3,
    ensures
        framer_feed_calls::<S>(pid, FramerState::Collecting { target: 3 }, buf, x)
            == framer_feed_calls::<S>(pid, FramerState::Idle, Seq::empty(), buf + x),
{
    let e = Seq::<u8>::empty();
    let none = Seq::<FramerCall>::empty();
    let st = FramerState::Collecting { target: 3 };
    let bytes = buf + x;
    assert(bytes[0] == buf[0]);
    if buf.len() + x.len() >= 3 && x.len() > 0 {
        if S::spec_valid(spec_section_common_header(bytes.subrange(0, 3))) {
            lemma_collecting_header_accepted_calls::<S>(pid, buf, x);
        } else {
            lemma_collecting_header_rejected_calls::<S>(pid, buf, x);
        }
    } else {
        let r = framer_step::<S>(FramerState::Idle, e, bytes);
        assert(framer_step_calls::<S>(pid, FramerState::Idle, e, bytes) =~= none);
        assert(r.rest =~= e);
        let rf = framer_feed_calls::<S>(pid, r.state, r.buf, r.rest);
        assert(rf =~= none);
        assert(framer_feed_calls::<S>(pid, FramerState::Idle, e, bytes) =~= none);
        if x.len() == 0 {
            assert(bytes =~= buf);
        } else {
            let l = framer_step::<S>(st, buf, x);
            assert(buf + x.subrange(0, x.len() as int) =~= bytes);
            assert(framer_step_calls::<S>(pid, st, buf, x) =~= none);
            assert(l.rest =~= e);
            let lf = framer_feed_calls::<S>(pid, l.state, l.buf, l.rest);
            assert(lf =~= none);
            assert(framer_feed_calls::<S>(pid, st, buf, x) =~= none);
        }
    }
}

/// A collecting framer makes the calls that an idle framer makes given the buffered bytes ahead
/// of its input.
proof fn lemma_collecting_calls<S: SectionSyntax>(pid: packet::Pid, t: usize, buf: Seq<u8>, x: Seq<u8>)
    requires
        framer_wf::<S>(FramerState::Collecting { target: t }, buf),
    ensures
        framer_feed_calls::<S>(pid, FramerState::Collecting { target: t }, buf, x)
            == framer_feed_calls::<S>(pid, FramerState::Idle, Seq::empty(), buf + x),
{
    if buf.len() >= 3 {
        lemma_collecting_with_header_calls::<S>(pid, t, buf, x);
    } else {
        lemma_collecting_header_calls::<S>(pid, buf, x);
    }
}

/// `true` when feeding `a + b` to a framer in the state `st`, holding `buf`, makes the calls
/// made while feeding it `a`, followed by those made while feeding `b` afterwards.
spec fn calls_split<S: SectionSyntax>(pid: packet::Pid, st: FramerState, buf: Seq<u8>, a: Seq<u8>, b: Seq<u8>) -> bool {
    let fa = framer_feed::<S>(st, buf, a);
    framer_feed_calls::<S>(pid, st, buf, a + b) == framer_feed_calls::<S>(pid, st, buf, a)
        + framer_feed_calls::<S>(pid, fa.state, fa.buf, b)
}

/// The first piece ends inside a rejected section (or one being discarded), whose discarding
/// continues into the second piece.
#[verifier::spinoff_prover]
proof fn lemma_split_while_discarding_calls<S: SectionSyntax>(pid: packet::Pid, st: FramerState, a: Seq<u8>, b: Seq<u8>)
    requires
        st is Idle || st is Ignoring,
        a.len() > 0,
        !framer_step::<S>(st, Seq::empty(), a).stop,
        framer_step::<S>(st, Seq::empty(), a).state is Ignoring,
        framer_step::<S>(st, Seq::empty(), a).rest.len() == 0,
        framer_step::<S>(st, Seq::empty(), a).buf.len() == 0,
        framer_step_calls::<S>(pid, st, Seq::empty(), a + b) == framer_step_calls::<S>(
            pid,
            st,
            Seq::empty(),
            a,
        ),
        b.len() > 0 ==> ({
            let sa = framer_step::<S>(st, Seq::empty(), a);
            let sab = framer_step::<S>(st, Seq::empty(), a + b);
            let sb = framer_step::<S>(sa.state, Seq::empty(), b);
            &&& sb.state == sab.state
            &&& sb.rest == sab.rest
            &&& sb.buf.len() == 0
            &&& sab.buf.len() == 0
            &&& !sab.stop
        }),
        b.len() == 0 ==> framer_step::<S>(st, Seq::empty(), a + b) == framer_step::<S>(st, Seq::empty(), a),
    ensures
        calls_split::<S>(pid, st, Seq::empty(), a, b),
{
    let e = Seq::<u8>::empty();
    let none = Seq::<FramerCall>::empty();
    let sa = framer_step::<S>(st, e, a);
    let sab = framer_step::<S>(st, e, a + b);
    let ea = framer_step_calls::<S>(pid, st, e, a);
    assert(sa.rest =~= e);
    assert(sa.buf =~= e);
    let fa = framer_feed::<S>(st, e, a);
    let fr = framer_feed::<S>(sa.state, sa.buf, sa.rest);
    assert(fr.state == sa.state && fr.buf == e);
    assert(fa.state == fr.state && fa.buf == fr.buf);
    assert(framer_feed_calls::<S>(pid, sa.state, sa.buf, sa.rest) =~= none);
    assert(framer_feed_calls::<S>(pid, st, e, a) == ea + none);
    assert(ea + none =~= ea);
    if b.len() == 0 {
        assert(a + b =~= a);
        assert(framer_feed_calls::<S>(pid, fa.state, fa.buf, b) =~= none);
    } else {
        let sb = framer_step::<S>(sa.state, e, b);
        assert(sb.buf =~= e);
        assert(sab.buf =~= e);
        assert(framer_step_calls::<S>(pid, sa.state, e, b) =~= none);
        let g = framer_feed_calls::<S>(pid, sab.state, e, sab.rest);
        assert(framer_feed_calls::<S>(pid, sa.state, e, b) == none + g);
        assert(none + g =~= g);
        assert(framer_feed_calls::<S>(pid, st, e, a + b) == ea + g);
    }
}

/// The first piece ends inside a section (or its header) that the framer starts collecting.
#[verifier::spinoff_prover]
proof fn lemma_split_while_collecting_calls<S: SectionSyntax>(pid: packet::Pid, a: Seq<u8>, b: Seq<u8>)
    requires
        a.len() > 0,
        framer_step::<S>(FramerState::Idle, Seq::empty(), a).state is Collecting,
        framer_step::<S>(FramerState::Idle, Seq::empty(), a).buf == a,
        framer_step::<S>(FramerState::Idle, Seq::empty(), a).rest.len() == 0,
        !framer_step::<S>(FramerState::Idle, Seq::empty(), a).stop,
        framer_wf::<S>(framer_step::<S>(FramerState::Idle, Seq::empty(), a).state, a),
    ensures
        calls_split::<S>(pid, FramerState::Idle, Seq::empty(), a, b),
{
    let e = Seq::<u8>::empty();
    let none = Seq::<FramerCall>::empty();
    let sa = framer_step::<S>(FramerState::Idle, e, a);
    let t = sa.state->target;
    lemma_collecting_calls::<S>(pid, t, a, b);
    assert(sa.rest =~= e);
    assert(framer_step_calls::<S>(pid, FramerState::Idle, e, a) =~= none);
    let fa = framer_feed::<S>(FramerState::Idle, e, a);
    let fr = framer_feed::<S>(sa.state, sa.buf, sa.rest);
    assert(fr.state == sa.state && fr.buf == a);
    assert(fa.state == fr.state && fa.buf == fr.buf);
    assert(framer_feed_calls::<S>(pid, sa.state, sa.buf, sa.rest) =~= none);
    assert(framer_feed_calls::<S>(pid, FramerState::Idle, e, a) =~= none);
    let f2 = framer_feed_calls::<S>(pid, sa.state, a, b);
    assert(none + f2 =~= f2);
}

/// Combines a prefix step with the calls made for the rest of the input.
#[verifier::spinoff_prover]
proof fn lemma_prefix_step_then_calls<S: SectionSyntax>(pid: packet::Pid, st: FramerState, a: Seq<u8>, b: Seq<u8>, k: int)
    requires
        a.len() > 0,
        prefix_step::<S>(st, a, b, k),
        framer_step_calls::<S>(pid, st, Seq::empty(), a + b) == framer_step_calls::<S>(
            pid,
            st,
            Seq::empty(),
            a,
        ),
        calls_split::<S>(pid, FramerState::Idle, Seq::empty(), a.subrange(k, a.len() as int), b),
    ensures
        calls_split::<S>(pid, st, Seq::empty(), a, b),
{
    let e = Seq::<u8>::empty();
    let a2 = a.subrange(k, a.len() as int);
    let sa = framer_step::<S>(st, e, a);
    let sab = framer_step::<S>(st, e, a + b);
    assert((a + b).len() > 0);
    let ea = framer_step_calls::<S>(pid, st, e, a);
    let x = framer_feed_calls::<S>(pid, FramerState::Idle, e, a2);
    let fa2 = framer_feed::<S>(FramerState::Idle, e, a2);
    let y = framer_feed_calls::<S>(pid, fa2.state, fa2.buf, b);
    assert(framer_feed_calls::<S>(pid, st, e, a) == ea + x);
    assert(framer_feed_calls::<S>(pid, st, e, a + b) == ea + framer_feed_calls::<S>(
        pid,
        FramerState::Idle,
        e,
        a2 + b,
    ));
    let fa = framer_feed::<S>(st, e, a);
    assert(fa.state == fa2.state && fa.buf == fa2.buf);
    assert(ea + (x + y) =~= (ea + x) + y);
}

/// The first step of an idle framer makes the same calls for a piece as for that piece
/// followed by more data, once the piece holds a section header that is rejected or a whole
/// section.
proof fn lemma_idle_step_calls_prefix<S: SectionSyntax>(pid: packet::Pid, a: Seq<u8>, b: Seq<u8>)
    requires
        a.len() >= 3,
        !S::spec_valid(spec_section_common_header(a.subrange(0, 3)))
            || 3 + spec_section_common_header(a.subrange(0, 3)).section_length <= a.len(),
    ensures
        framer_step_calls::<S>(pid, FramerState::Idle, Seq::empty(), a + b) == framer_step_calls::<S>(
            pid,
            FramerState::Idle,
            Seq::empty(),
            a,
        ),
{
    let ab = a + b;
    assert(ab[0] == a[0]);
    assert(ab.subrange(0, 3) =~= a.subrange(0, 3));
    let total = 3 + spec_section_common_header(a.subrange(0, 3)).section_length;
    if S::spec_valid(spec_section_common_header(a.subrange(0, 3))) && a[0] != 0xff {
        assert(ab.subrange(0, total) =~= a.subrange(0, total));
    }
    let sa = framer_step::<S>(FramerState::Idle, Seq::empty(), a);
    let sab = framer_step::<S>(FramerState::Idle, Seq::empty(), ab);
    assert(sa.delivered =~= sab.delivered);
}

/// The first piece fed to an idle framer ends before the section it starts is complete.
#[verifier::spinoff_prover]
proof fn lemma_idle_terminal_calls<S: SectionSyntax>(pid: packet::Pid, a: Seq<u8>, b: Seq<u8>)
    requires
        a.len() > 0,
        !framer_feed::<S>(FramerState::Idle, Seq::empty(), a).stopped,
        a.len() < 3 || 3 + spec_section_common_header(a.subrange(0, 3)).section_length > a.len(),
    ensures
        calls_split::<S>(pid, FramerState::Idle, Seq::empty(), a, b),
{
    let e = Seq::<u8>::empty();
    let ab = a + b;
    assert(ab[0] == a[0]);
    let sa = framer_step::<S>(FramerState::Idle, e, a);
    let sab = framer_step::<S>(FramerState::Idle, e, ab);
    assert(!sa.stop);
    if b.len() == 0 {
        assert(ab =~= a);
    }
    if a.len() >= 3 {
        assert(ab.subrange(0, 3) =~= a.subrange(0, 3));
        let h = spec_section_common_header(a.subrange(0, 3));
        if !S::spec_valid(h) {
            lemma_idle_step_calls_prefix::<S>(pid, a, b);
            if b.len() > 0 {
                let sb = framer_step::<S>(sa.state, e, b);
                assert(sb.rest =~= sab.rest);
            }
            lemma_split_while_discarding_calls::<S>(pid, FramerState::Idle, a, b);
        } else {
            assert(sa.buf =~= a);
            assert(framer_wf::<S>(sa.state, a)) by {
                assert(spec_section_common_header(a) == h);
            }
            lemma_split_while_collecting_calls::<S>(pid, a, b);
        }
    } else {
        assert(sa.buf =~= a);
        lemma_split_while_collecting_calls::<S>(pid, a, b);
    }
}

/// The first piece fed to a framer discarding a rejected section ends before the section does.
#[verifier::spinoff_prover]
proof fn lemma_ignoring_terminal_calls<S: SectionSyntax>(pid: packet::Pid, r: usize, a: Seq<u8>, b: Seq<u8>)
    requires
        a.len() > 0,
        r > a.len(),
    ensures
        calls_split::<S>(pid, FramerState::Ignoring { remaining: r }, Seq::empty(), a, b),
{
    let e = Seq::<u8>::empty();
    let st = FramerState::Ignoring { remaining: r };
    let ab = a + b;
    let sa = framer_step::<S>(st, e, a);
    let sab = framer_step::<S>(st, e, ab);
    assert(framer_step_calls::<S>(pid, st, e, ab) =~= framer_step_calls::<S>(pid, st, e, a));
    if b.len() == 0 {
        assert(ab =~= a);
    } else {
        let sb = framer_step::<S>(sa.state, e, b);
        assert(sb.rest =~= sab.rest);
    }
    lemma_split_while_discarding_calls::<S>(pid, st, a, b);
}

/// Splitting the data fed to an idle framer, or to one discarding a rejected section, into two
/// Splitting the data fed to an idle framer, or to one discarding a rejected section, into two
/// pieces changes none of the calls made, as long as the first piece holds no stuffing in place
/// of a section.
proof fn lemma_feed_split_idle_calls<S: SectionSyntax>(pid: packet::Pid, st: FramerState, a: Seq<u8>, b: Seq<u8>)
    requires
        st is Idle || st is Ignoring,
        !framer_feed::<S>(st, Seq::empty(), a).stopped,
    ensures
        calls_split::<S>(pid, st, Seq::empty(), a, b),
    decreases a.len(), ignoring_rank(st),
{
    let e = Seq::<u8>::empty();
    if a.len() == 0 {
        assert(a + b =~= b);
        let f2 = framer_feed_calls::<S>(pid, st, e, b);
        assert(Seq::<FramerCall>::empty() + f2 =~= f2);
        return ;
    }
    match st {
        FramerState::Idle => {
            if a.len() >= 3 && 3 + spec_section_common_header(a.subrange(0, 3)).section_length
                <= a.len() {
                let k = 3 + spec_section_common_header(a.subrange(0, 3)).section_length;
                assert(a[0] != 0xff);
                lemma_idle_prefix_step::<S>(a, b);
                lemma_idle_step_calls_prefix::<S>(pid, a, b);
                lemma_prefix_step_not_stopped::<S>(st, a, b, k);
                lemma_feed_split_idle_calls::<S>(pid, FramerState::Idle, a.subrange(k, a.len() as int), b);
                lemma_prefix_step_then_calls::<S>(pid, st, a, b, k);
            } else {
                lemma_idle_terminal_calls::<S>(pid, a, b);
            }
        },
        FramerState::Ignoring { remaining } => {
            if remaining <= a.len() {
                lemma_ignoring_prefix_step::<S>(remaining, a, b);
                assert(framer_step_calls::<S>(pid, st, e, a + b) =~= framer_step_calls::<S>(pid, st, e, a));
                lemma_prefix_step_not_stopped::<S>(st, a, b, remaining as int);
                lemma_feed_split_idle_calls::<S>(pid, FramerState::Idle, a.subrange(remaining as int, a.len() as int), b);
                lemma_prefix_step_then_calls::<S>(pid, st, a, b, remaining as int);
            } else {
                lemma_ignoring_terminal_calls::<S>(pid, remaining, a, b);
            }
        },
        _ => {},
    }
}

/// How section data is split into pieces does not matter: feeding a framer the data `a`
/// and then the data `b` delivers the same sections, reports the same problems, and makes the
/// same calls on its parser and context, in the same order (for a framer on any PID `pid`),
/// and leaves the same bytes buffered and an equivalent state, as feeding it `a` and `b` joined
/// together, as long as `a` holds no stuffing in place of a section (which
/// ends a piece early).
pub proof fn lemma_feed_split<S: SectionSyntax>(pid: packet::Pid, st: FramerState, buf: Seq<u8>, a: Seq<u8>, b: Seq<u8>)
    requires
        framer_wf::<S>(st, buf),
        !framer_feed::<S>(st, buf, a).stopped,
    ensures
        feed_equiv(framer_feed::<S>(st, buf, a + b), feed_then::<S>(framer_feed::<S>(st, buf, a), b)),
        framer_feed_errors::<S>(pid, st, buf, a + b) == framer_feed_errors::<S>(pid, st, buf, a)
            + framer_feed_errors::<S>(
            pid,
            framer_feed::<S>(st, buf, a).state,
            framer_feed::<S>(st, buf, a).buf,
            b,
        ),
        framer_feed_calls::<S>(pid, st, buf, a + b) == framer_feed_calls::<S>(pid, st, buf, a)
            + framer_feed_calls::<S>(
            pid,
            framer_feed::<S>(st, buf, a).state,
            framer_feed::<S>(st, buf, a).buf,
            b,
        ),
{
    match st {
        FramerState::Collecting { target } => {
            let e = Seq::<u8>::empty();
            lemma_collecting_is_buffered_input::<S>(target, buf, a + b);
            lemma_collecting_is_buffered_input::<S>(target, buf, a);
            lemma_feed_split_idle::<S>(FramerState::Idle, buf + a, b);
            assert(buf + (a + b) =~= (buf + a) + b);
            lemma_feed_then_equiv::<S>(framer_feed::<S>(st, buf, a), framer_feed::<S>(FramerState::Idle, e, buf + a), b);
            lemma_collecting_errors::<S>(pid, target, buf, a + b);
            lemma_collecting_errors::<S>(pid, target, buf, a);
            lemma_feed_split_idle_errors::<S>(pid, FramerState::Idle, buf + a, b);
            let f = framer_feed::<S>(st, buf, a);
            let g = framer_feed::<S>(FramerState::Idle, e, buf + a);
            lemma_feed_norm_errors::<S>(pid, f.state, g.state, f.buf, b);
            lemma_collecting_calls::<S>(pid, target, buf, a + b);
            lemma_collecting_calls::<S>(pid, target, buf, a);
            lemma_feed_split_idle_calls::<S>(pid, FramerState::Idle, buf + a, b);
            lemma_feed_norm_calls::<S>(pid, f.state, g.state, f.buf, b);
        },
        _ => {
            assert(buf =~= Seq::<u8>::empty());
            lemma_feed_split_idle::<S>(st, a, b);
            lemma_feed_split_idle_errors::<S>(pid, st, a, b);
            lemma_feed_split_idle_calls::<S>(pid, st, a, b);
        },
    }
}

/// `true` when `sec` is one whole section that the framing mode `S` accepts: it starts with a
/// `table_id` other than stuffing, its header is accepted, and it holds exactly the 3 header
/// bytes and the `section_length` bytes that the header gives.
pub open spec fn whole_section<S: SectionSyntax>(sec: Seq<u8>) -> bool {
    &&& sec.len() >= 3
    &&& sec[0] != 0xff
    &&& S::spec_valid(spec_section_common_header(sec.subrange(0, 3)))
    &&& sec.len() == 3 + spec_section_common_header(sec.subrange(0, 3)).section_length
}

/// Whole sections, one after another, fed to an idle framer with nothing buffered, are
/// delivered as they are, each once and in order, with no problem reported: the framer makes
/// exactly one section call for each, and is left idle with nothing buffered.
pub proof fn lemma_whole_sections_delivered<S: SectionSyntax>(pid: packet::Pid, secs: Seq<Seq<u8>>)
    requires
        forall|i: int| 0 <= i < secs.len() ==> whole_section::<S>(#[trigger] secs[i]),
    ensures
        framer_feed::<S>(FramerState::Idle, Seq::empty(), secs.flatten()).delivered == secs,
        framer_feed::<S>(FramerState::Idle, Seq::empty(), secs.flatten()).state == FramerState::Idle,
        framer_feed::<S>(FramerState::Idle, Seq::empty(), secs.flatten()).buf.len() == 0,
        !framer_feed::<S>(FramerState::Idle, Seq::empty(), secs.flatten()).stopped,
        framer_feed_errors::<S>(pid, FramerState::Idle, Seq::empty(), secs.flatten())
            == Seq::<DemuxError>::empty(),
        framer_feed_calls::<S>(pid, FramerState::Idle, Seq::empty(), secs.flatten())
            == secs.map_values(|d: Seq<u8>| FramerCall::Section(d)),
    decreases secs.len(),
{
    let e = Seq::<u8>::empty();
    if secs.len() == 0 {
        assert(secs.flatten() =~= e);
        assert(secs.map_values(|d: Seq<u8>| FramerCall::Section(d)) =~= Seq::<FramerCall>::empty());
    } else {
        let sec = secs[0];
        let rest = secs.drop_first();
        assert forall|i: int| 0 <= i < rest.len() implies whole_section::<S>(#[trigger] rest[i]) by {
            assert(rest[i] == secs[i + 1]);
        }
        lemma_whole_sections_delivered::<S>(pid, rest);
        assert(whole_section::<S>(secs[0]));
        let bytes = secs.flatten();
        assert(bytes =~= sec + rest.flatten());
        let h = spec_section_common_header(sec.subrange(0, 3));
        assert(bytes.subrange(0, 3) =~= sec.subrange(0, 3));
        assert(bytes.subrange(0, sec.len() as int) =~= sec);
        assert(bytes.subrange(sec.len() as int, bytes.len() as int) =~= rest.flatten());
        let st = framer_step::<S>(FramerState::Idle, e, bytes);
        assert(st.delivered == seq![sec]);
        assert(st.state == FramerState::Idle);
        assert(st.rest == rest.flatten());
        assert(!st.stop);
        assert(framer_step_errors::<S>(pid, FramerState::Idle, e, bytes) =~= Seq::<DemuxError>::empty());
        assert(seq![sec] + rest =~= secs);
        let r = framer_feed::<S>(FramerState::Idle, e, rest.flatten());
        assert(framer_feed::<S>(FramerState::Idle, e, bytes).delivered == st.delivered + r.delivered);
        assert(framer_step_calls::<S>(pid, FramerState::Idle, e, bytes) =~= seq![FramerCall::Section(sec)]);
        assert(secs.map_values(|d: Seq<u8>| FramerCall::Section(d)) =~= seq![FramerCall::Section(sec)]
            + rest.map_values(|d: Seq<u8>| FramerCall::Section(d)));
        assert(Seq::<DemuxError>::empty() + Seq::<DemuxError>::empty() =~= Seq::<DemuxError>::empty());
    }
}

/// Any leading part of whole sections, fed to an idle framer, is used up without stuffing
/// ending it early.
proof fn lemma_whole_sections_prefix_not_stopped<S: SectionSyntax>(secs: Seq<Seq<u8>>, k: int)
    requires
        forall|i: int| 0 <= i < secs.len() ==> whole_section::<S>(#[trigger] secs[i]),
        0 <= k <= secs.flatten().len(),
    ensures
        !framer_feed::<S>(FramerState::Idle, Seq::empty(), secs.flatten().subrange(0, k)).stopped,
    decreases secs.len(),
{
    let e = Seq::<u8>::empty();
    if secs.len() == 0 {
        assert(secs.flatten() =~= e);
        assert(secs.flatten().subrange(0, k) =~= e);
    } else {
        let sec = secs[0];
        let rest = secs.drop_first();
        assert forall|i: int| 0 <= i < rest.len() implies whole_section::<S>(#[trigger] rest[i]) by {
            assert(rest[i] == secs[i + 1]);
        }
        assert(whole_section::<S>(secs[0]));
        let bytes = secs.flatten();
        assert(bytes =~= sec + rest.flatten());
        let a = bytes.subrange(0, k);
        if k == 0 {
            assert(a =~= e);
        } else if k < sec.len() {
            assert(a[0] == sec[0]);
            if k >= 3 {
                assert(a.subrange(0, 3) =~= sec.subrange(0, 3));
            }
            let st = framer_step::<S>(FramerState::Idle, e, a);
            assert(!st.stop && st.rest.len() == 0);
            assert(framer_feed::<S>(FramerState::Idle, e, a).stopped == framer_feed::<S>(
                st.state,
                st.buf,
                st.rest,
            ).stopped);
        } else {
            lemma_whole_sections_prefix_not_stopped::<S>(rest, k - sec.len());
            assert(a.subrange(0, 3) =~= sec.subrange(0, 3));
            assert(a.subrange(0, sec.len() as int) =~= sec);
            assert(a.subrange(sec.len() as int, a.len() as int) =~= rest.flatten().subrange(
                0,
                k - sec.len(),
            ));
            let st = framer_step::<S>(FramerState::Idle, e, a);
            assert(!st.stop && st.state == FramerState::Idle && st.buf == e);
            assert(st.rest =~= rest.flatten().subrange(0, k - sec.len()));
            assert(framer_feed::<S>(FramerState::Idle, e, a).stopped == framer_feed::<S>(
                st.state,
                st.buf,
                st.rest,
            ).stopped);
        }
    }
}

/// However whole sections, one after another, are split into two pieces fed to an idle framer
/// with nothing buffered (inside a header, inside a body, or between sections), they are
/// delivered as they are, each once and in order, with no problem reported: the framer makes
/// exactly one section call for each, and is left with nothing buffered, in a state that
/// behaves as idle.
pub proof fn lemma_whole_sections_split<S: SectionSyntax>(pid: packet::Pid, secs: Seq<Seq<u8>>, k: int)
    requires
        forall|i: int| 0 <= i < secs.len() ==> whole_section::<S>(#[trigger] secs[i]),
        0 <= k <= secs.flatten().len(),
    ensures
        ({
            let e = Seq::<u8>::empty();
            let a = secs.flatten().subrange(0, k);
            let b = secs.flatten().subrange(k, secs.flatten().len() as int);
            let fa = framer_feed::<S>(FramerState::Idle, e, a);
            let fb = framer_feed::<S>(fa.state, fa.buf, b);
            &&& fa.delivered + fb.delivered == secs
            &&& norm_state(fb.state) == FramerState::Idle
            &&& fb.buf.len() == 0
            &&& !fa.stopped && !fb.stopped
            &&& framer_feed_errors::<S>(pid, FramerState::Idle, e, a) == Seq::<DemuxError>::empty()
            &&& framer_feed_errors::<S>(pid, fa.state, fa.buf, b) == Seq::<DemuxError>::empty()
            &&& framer_feed_calls::<S>(pid, FramerState::Idle, e, a) + framer_feed_calls::<S>(
                pid,
                fa.state,
                fa.buf,
                b,
            ) == secs.map_values(|d: Seq<u8>| FramerCall::Section(d))
        }),
{
    let e = Seq::<u8>::empty();
    let bytes = secs.flatten();
    let a = bytes.subrange(0, k);
    let b = bytes.subrange(k, bytes.len() as int);
    assert(a + b =~= bytes);
    lemma_whole_sections_delivered::<S>(pid, secs);
    lemma_whole_sections_prefix_not_stopped::<S>(secs, k);
    lemma_feed_split::<S>(pid, FramerState::Idle, e, a, b);
    let ea = framer_feed_errors::<S>(pid, FramerState::Idle, e, a);
    assert(ea.len() == 0);
    assert(ea =~= Seq::<DemuxError>::empty());
}

/// Feeding an idle framer one whole section followed only by stuffing delivers the section,
/// makes exactly the one call delivering it, reports no problem, and leaves the framer idle with
/// nothing buffered.
proof fn lemma_section_then_stuffing<S: SectionSyntax>(pid: packet::Pid, sec: Seq<u8>, stuffing: Seq<u8>)
    requires
        whole_section::<S>(sec),
        forall|i: int| 0 <= i < stuffing.len() ==> stuffing[i] == 0xff,
    ensures
        framer_feed::<S>(FramerState::Idle, Seq::empty(), sec + stuffing).delivered == seq![sec],
        framer_feed::<S>(FramerState::Idle, Seq::empty(), sec + stuffing).state == FramerState::Idle,
        framer_feed::<S>(FramerState::Idle, Seq::empty(), sec + stuffing).buf.len() == 0,
        framer_feed_errors::<S>(pid, FramerState::Idle, Seq::empty(), sec + stuffing)
            == Seq::<DemuxError>::empty(),
        framer_feed_calls::<S>(pid, FramerState::Idle, Seq::empty(), sec + stuffing)
            == seq![FramerCall::Section(sec)],
{
    let e = Seq::<u8>::empty();
    let bytes = sec + stuffing;
    assert(bytes.subrange(0, 3) =~= sec.subrange(0, 3));
    assert(bytes.subrange(0, sec.len() as int) =~= sec);
    assert(bytes.subrange(sec.len() as int, bytes.len() as int) =~= stuffing);
    let st = framer_step::<S>(FramerState::Idle, e, bytes);
    assert(st.delivered == seq![sec] && st.rest == stuffing && !st.stop);
    assert(st.state == FramerState::Idle && st.buf == e);
    assert(framer_step_errors::<S>(pid, FramerState::Idle, e, bytes) =~= Seq::<DemuxError>::empty());
    assert(framer_step_calls::<S>(pid, FramerState::Idle, e, bytes) =~= seq![FramerCall::Section(sec)]);
    let r = framer_feed::<S>(FramerState::Idle, e, stuffing);
    if stuffing.len() > 0 {
        let s2 = framer_step::<S>(FramerState::Idle, e, stuffing);
        assert(s2.stop && s2.delivered.len() == 0 && s2.state == FramerState::Idle && s2.buf == e);
        assert(framer_step_errors::<S>(pid, FramerState::Idle, e, stuffing) =~= Seq::<DemuxError>::empty());
        assert(framer_step_calls::<S>(pid, FramerState::Idle, e, stuffing) =~= Seq::<FramerCall>::empty());
    }
    assert(r.delivered =~= Seq::<Seq<u8>>::empty() && r.state == FramerState::Idle && r.buf == e);
    assert(framer_feed::<S>(FramerState::Idle, e, bytes).delivered == st.delivered + r.delivered);
    assert(framer_feed::<S>(FramerState::Idle, e, bytes).state == r.state);
    let rc = framer_feed_calls::<S>(pid, FramerState::Idle, e, stuffing);
    let re = framer_feed_errors::<S>(pid, FramerState::Idle, e, stuffing);
    assert(rc =~= Seq::<FramerCall>::empty());
    assert(re =~= Seq::<DemuxError>::empty());
    assert(framer_feed_calls::<S>(pid, FramerState::Idle, e, bytes) == framer_step_calls::<S>(
        pid,
        FramerState::Idle,
        e,
        bytes,
    ) + rc);
    assert(framer_feed_errors::<S>(pid, FramerState::Idle, e, bytes) == framer_step_errors::<S>(
        pid,
        FramerState::Idle,
        e,
        bytes,
    ) + re);
    assert(seq![sec] + Seq::<Seq<u8>>::empty() =~= seq![sec]);
    assert(seq![FramerCall::Section(sec)] + Seq::<FramerCall>::empty() =~= seq![FramerCall::Section(sec)]);
    assert(Seq::<DemuxError>::empty() + Seq::<DemuxError>::empty() =~= Seq::<DemuxError>::empty());
}

/// A packet starting a section, whose payload holds a `pointer_field` of 0, then one whole
/// section that the framing mode accepts, then only stuffing, handed to a framer that is idle
/// with nothing buffered, is delivered as it is, with no problem reported: the framer makes
/// exactly one call, the delivery of that section to its parser, which changes the parser and
/// the context as the parser's handling of the section does; the framer is left synchronised
/// and idle, with nothing buffered.
pub proof fn lemma_one_section_packet<S: SectionSyntax>(
    f0: Framer<S>,
    x0: S::Context,
    f1: Framer<S>,
    x1: S::Context,
    pk: Seq<u8>,
    sec: Seq<u8>,
    stuffing: Seq<u8>,
)
    requires
        framer_consumed(f0, f1, pk),
        framer_called(f0, x0, f1, x1),
        f0.wf(),
        f0.state() == FramerState::Idle,
        (pk[1] / 64) % 2 == 1,
        packet::spec_packet_payload(pk) == Some(seq![0u8] + sec + stuffing),
        whole_section::<S>(sec),
        forall|i: int| 0 <= i < stuffing.len() ==> stuffing[i] == 0xff,
    ensures
        S::spec_delivered(
            f0.parser(),
            x0,
            f1.parser(),
            x1,
            spec_section_common_header(sec.subrange(0, 3)),
            sec,
        ),
        f1.calls() == f0.calls().push(FramerCall::Section(sec)),
        f1.delivered() == f0.delivered().push(sec),
        f1.reported() == f0.reported(),
        f1.synced(),
        f1.state() == FramerState::Idle,
        f1.buffered().len() == 0,
{
    let e = Seq::<u8>::empty();
    let p = seq![0u8] + sec + stuffing;
    let sd = p.subrange(1, p.len() as int);
    assert(sd =~= sec + stuffing);
    assert(p[0] == 0);
    assert(sd.subrange(0, 0) =~= e);
    assert(sd.subrange(0, sd.len() as int) =~= sd);
    assert(f0.buffered() =~= e);
    lemma_section_then_stuffing::<S>(f0.pid(), sec, stuffing);
    let c = framer_start::<S>(f0.synced(), FramerState::Idle, e, p);
    assert(c.delivered =~= seq![sec]);
    assert(framer_start_errors::<S>(f0.pid(), f0.synced(), FramerState::Idle, e, p)
        =~= Seq::<DemuxError>::empty());
    let calls = framer_start_calls::<S>(f0.pid(), f0.synced(), FramerState::Idle, e, p);
    assert(calls =~= seq![FramerCall::Section(sec)]);
    assert(framer_consume_calls::<S>(f0.pid(), f0.synced(), FramerState::Idle, e, pk) == calls);
    assert(framer_consume_errors::<S>(f0.pid(), f0.synced(), FramerState::Idle, e, pk)
        =~= Seq::<DemuxError>::empty());
    assert(f1.calls() =~= f0.calls().push(FramerCall::Section(sec)));
    let new = f1.calls().subrange(f0.calls().len() as int, f1.calls().len() as int);
    assert(new =~= seq![FramerCall::Section(sec)]);
    assert(new.drop_last() =~= Seq::<FramerCall>::empty());
    assert(new.last() == FramerCall::Section(sec));
    let (p1, x1_) = choose|p: S::Parser, x: S::Context|
        #![trigger crate::psi::framer_call_applied::<S>(p, x, new.last(), f1.parser(), x1)]
        framer_calls_applied::<S>(f0.parser(), x0, new.drop_last(), p, x)
            && crate::psi::framer_call_applied::<S>(p, x, new.last(), f1.parser(), x1);
    assert(p1 == f0.parser() && x1_ == x0);
    assert(f1.reported() =~= f0.reported());
    assert(f1.delivered() =~= f0.delivered().push(sec));
}

} // verus!
