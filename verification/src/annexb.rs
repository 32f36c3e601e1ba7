//! A reader for the NAL unit framing format defined in _ITU-T Recommendation H.264 - Annex B_,
//! as used when H.264 data is embedded in an MPEG-2 transport stream.

use vstd::prelude::*;
use crate::push::{chunks_bytes, chunks_non_empty, AccumulatedNalHandler, NalAccumulator, NalFragmentHandler};
use crate::rbsp::find_byte;

verus! {

/// The current state, named for the most recently examined byte.
#[derive(Copy, Clone, Debug, PartialEq, Eq, Structural)]
pub enum ParseState {
    Start,
    StartOneZero,
    StartTwoZero,
    InUnit,
    InUnitOneZero,
    InUnitTwoZero,
}

/// Describes the state within a NAL unit.
#[derive(Copy, Clone, Debug)]
pub struct InUnitState {
    /// The number of bytes to backtrack if the current sequence of `0x00`s
    /// doesn't end the NAL unit.
    pub backtrack_bytes: usize,
}

/// Whether the state is within a NAL unit.
pub open spec fn in_unit(st: ParseState) -> bool {
    st == ParseState::InUnit || st == ParseState::InUnitOneZero || st == ParseState::InUnitTwoZero
}

/// The number of `0x00` bytes held back in the state: those that may turn out to start a
/// start code.
pub open spec fn held(st: ParseState) -> nat {
    match st {
        ParseState::InUnitOneZero => 1,
        ParseState::InUnitTwoZero => 2,
        _ => 0,
    }
}

impl ParseState {
    /// If in a NAL unit, returns an object describing the state.
    pub fn in_unit(&self) -> (r: Option<InUnitState>)
        ensures
            in_unit(*self) <==> r is Some,
            r matches Some(s) ==> s.backtrack_bytes == held(*self),
    {
        match *self {
            ParseState::Start => None,
            ParseState::StartOneZero => None,
            ParseState::StartTwoZero => None,
            ParseState::InUnit => Some(InUnitState { backtrack_bytes: 0 }),
            ParseState::InUnitOneZero => Some(InUnitState { backtrack_bytes: 1 }),
            ParseState::InUnitTwoZero => Some(InUnitState { backtrack_bytes: 2 }),
        }
    }
}

/// What a fragment handler is given: the bytes of NAL fragments, and the ends of NALs.
pub ghost enum FragmentEvent {
    Byte(u8),
    End,
}

/// Bytes handed to a fragment handler.
pub open spec fn bytes_events(s: Seq<u8>) -> Seq<FragmentEvent> {
    s.map_values(|b: u8| FragmentEvent::Byte(b))
}

/// `n` zero bytes.
pub open spec fn zeros(n: nat) -> Seq<u8> {
    Seq::new(n, |j: int| 0u8)
}

/// The end marker when `end` is set.
pub open spec fn end_events(end: bool) -> Seq<FragmentEvent> {
    if end { seq![FragmentEvent::End] } else { Seq::empty() }
}

/// One byte of an Annex B stream: the next state and what it hands to the fragment handler.
/// Zeros that may start a start code are held back until the following byte decides.
pub open spec fn annexb_step(st: ParseState, b: u8) -> (ParseState, Seq<FragmentEvent>) {
    let none = Seq::<FragmentEvent>::empty();
    match st {
        ParseState::Start => if b == 0 { (ParseState::StartOneZero, none) } else { (ParseState::Start, none) },
        ParseState::StartOneZero => if b == 0 { (ParseState::StartTwoZero, none) } else { (ParseState::Start, none) },
        ParseState::StartTwoZero => if b == 0 {
            (ParseState::StartTwoZero, none)
        } else if b == 1 {
            (ParseState::InUnit, none)
        } else {
            (ParseState::Start, none)
        },
        ParseState::InUnit => if b == 0 { (ParseState::InUnitOneZero, none) } else { (ParseState::InUnit, bytes_events(seq![b])) },
        ParseState::InUnitOneZero => if b == 0 {
            (ParseState::InUnitTwoZero, none)
        } else {
            (ParseState::InUnit, bytes_events(seq![0u8, b]))
        },
        ParseState::InUnitTwoZero => if b == 0 {
            (ParseState::StartTwoZero, seq![FragmentEvent::End])
        } else if b == 1 {
            (ParseState::InUnit, seq![FragmentEvent::End])
        } else {
            (ParseState::InUnit, bytes_events(seq![0u8, 0u8, b]))
        },
    }
}

/// A run of an Annex B stream from state `st`: the final state and everything handed to
/// the fragment handler.
pub open spec fn annexb_run(st: ParseState, bytes: Seq<u8>) -> (ParseState, Seq<FragmentEvent>)
    decreases bytes.len(),
{
    if bytes.len() == 0 {
        (st, Seq::empty())
    } else {
        let (s1, e1) = annexb_run(st, bytes.drop_last());
        let (s2, e2) = annexb_step(s1, bytes.last());
        (s2, e1 + e2)
    }
}

proof fn lemma_run_push(st: ParseState, s: Seq<u8>, b: u8)
    ensures
        annexb_run(st, s.push(b)) == ({
            let (s1, e1) = annexb_run(st, s);
            let (s2, e2) = annexb_step(s1, b);
            (s2, e1 + e2)
        }),
{
    assert(s.push(b).drop_last() =~= s);
}

/// A call made to a fragment handler: the chunks it was handed, and whether it ended the NAL.
pub ghost struct FragmentCall {
    pub chunks: Seq<Seq<u8>>,
    pub end: bool,
}

/// Whether a call keeps the fragment handler's protocol: every chunk handed is non-empty, and
/// a call that hands over no chunk ends the NAL.
pub open spec fn fragment_call_ok(c: FragmentCall) -> bool {
    &&& forall|j: int| 0 <= j < c.chunks.len() ==> (#[trigger] c.chunks[j]).len() > 0
    &&& c.chunks.len() > 0 || c.end
}

/// The calls `new` are the calls `old` followed by calls that keep the protocol.
pub open spec fn calls_extended(old: Seq<FragmentCall>, new: Seq<FragmentCall>) -> bool {
    &&& old.len() <= new.len()
    &&& new.take(old.len() as int) == old
    &&& forall|k: int| old.len() <= k < new.len() ==> fragment_call_ok(#[trigger] new[k])
}

/// No calls at all extend a list of calls.
pub proof fn lemma_calls_extended_refl(a: Seq<FragmentCall>)
    ensures
        calls_extended(a, a),
{
    assert(a.take(a.len() as int) =~= a);
}

/// Calls that extend calls that extend `a` extend `a`: a reader made by
/// `for_fragment_handler` keeps the protocol in every call, over any sequence of pushes and
/// resets.
pub proof fn lemma_calls_extended_trans(a: Seq<FragmentCall>, b: Seq<FragmentCall>, c: Seq<FragmentCall>)
    requires
        calls_extended(a, b),
        calls_extended(b, c),
    ensures
        calls_extended(a, c),
{
    assert(c.take(a.len() as int) =~= c.take(b.len() as int).take(a.len() as int));
    assert forall|k: int| a.len() <= k < c.len() implies fragment_call_ok(#[trigger] c[k]) by {
        if k < b.len() {
            assert(c[k] == c.take(b.len() as int)[k]);
        }
    }
}

/// Whether handed fragments are free of start codes: no two zero bytes are followed by a
/// zero or one byte, and the bytes so far do not end in a zero that a later byte could extend.
pub open spec fn fragments_clean(e: Seq<FragmentEvent>) -> bool {
    &&& forall|k: int| 0 <= k && k + 2 < e.len() ==> !(#[trigger] e[k] == FragmentEvent::Byte(0) && e[k + 1] == FragmentEvent::Byte(0)
        && (e[k + 2] == FragmentEvent::Byte(0) || e[k + 2] == FragmentEvent::Byte(1)))
    &&& e.len() > 0 ==> e.last() != FragmentEvent::Byte(0)
}

proof fn lemma_clean_step(prev: Seq<FragmentEvent>, st: ParseState, b: u8)
    requires
        fragments_clean(prev),
    ensures
        fragments_clean(prev + annexb_step(st, b).1),
{
    let e2 = annexb_step(st, b).1;
    let e = prev + e2;
    assert forall|k: int| 0 <= k && k + 2 < e.len() implies !(#[trigger] e[k] == FragmentEvent::Byte(0) && e[k + 1] == FragmentEvent::Byte(0)
        && (e[k + 2] == FragmentEvent::Byte(0) || e[k + 2] == FragmentEvent::Byte(1))) by {
        if k + 2 < prev.len() {
            assert(e[k] == prev[k] && e[k + 1] == prev[k + 1] && e[k + 2] == prev[k + 2]);
        } else if k + 1 == prev.len() - 1 || k == prev.len() - 1 {
            assert(e[prev.len() - 1] == prev.last());
        }
    }
    if e2.len() == 0 {
        assert(e =~= prev);
    } else {
        assert(e.last() == e2.last());
    }
}

/// Everything an Annex B reader hands to its fragment handler is free of start codes: within
/// the handed bytes, two zero bytes are never followed by a zero or a one.
pub proof fn lemma_annexb_output_clean(prev: Seq<FragmentEvent>, st: ParseState, bytes: Seq<u8>)
    requires
        fragments_clean(prev),
    ensures
        fragments_clean(prev + annexb_run(st, bytes).1),
    decreases bytes.len(),
{
    if bytes.len() > 0 {
        lemma_annexb_output_clean(prev, st, bytes.drop_last());
        let (s1, e1) = annexb_run(st, bytes.drop_last());
        lemma_clean_step(prev + e1, s1, bytes.last());
        assert(prev + e1 + annexb_step(s1, bytes.last()).1 =~= prev + annexb_run(st, bytes).1);
    }
}

/// Ending the input keeps what the fragment handler was handed free of start codes.
pub proof fn lemma_annexb_reset_clean(prev: Seq<FragmentEvent>, st: ParseState)
    requires
        fragments_clean(prev),
    ensures
        fragments_clean(prev + if in_unit(st) {
            bytes_events(zeros(held(st))) + seq![FragmentEvent::End]
        } else {
            Seq::<FragmentEvent>::empty()
        }),
{
    if in_unit(st) {
        let tail = bytes_events(zeros(held(st))) + seq![FragmentEvent::End];
        let e = prev + tail;
        assert(tail.len() == held(st) + 1);
        assert forall|k: int| 0 <= k && k + 2 < e.len() implies !(#[trigger] e[k] == FragmentEvent::Byte(0) && e[k + 1] == FragmentEvent::Byte(0)
            && (e[k + 2] == FragmentEvent::Byte(0) || e[k + 2] == FragmentEvent::Byte(1))) by {
            if k + 2 < prev.len() {
                assert(e[k] == prev[k] && e[k + 1] == prev[k + 1] && e[k + 2] == prev[k + 2]);
            } else if k + 2 == e.len() - 1 {
                assert(e[k + 2] == FragmentEvent::End);
            } else if prev.len() > 0 {
                assert(e[prev.len() - 1] == prev.last());
            }
        }
        assert(e.last() == FragmentEvent::End);
    } else {
        assert(prev + Seq::<FragmentEvent>::empty() =~= prev);
    }
}

/// Pushing a stream in two parts hands the fragment handler the same bytes and NAL ends,
/// in the same order, as pushing it at once, and leaves the same state: what the handler
/// receives does not depend on where the stream is split.
pub proof fn lemma_annexb_chunking(st: ParseState, a: Seq<u8>, b: Seq<u8>)
    ensures
        annexb_run(st, a + b) == ({
            let (s1, e1) = annexb_run(st, a);
            let (s2, e2) = annexb_run(s1, b);
            (s2, e1 + e2)
        }),
    decreases b.len(),
{
    if b.len() == 0 {
        assert(a + b =~= a);
        assert(annexb_run(st, a).1 + Seq::<FragmentEvent>::empty() =~= annexb_run(st, a).1);
    } else {
        let b1 = b.drop_last();
        lemma_annexb_chunking(st, a, b1);
        assert((a + b).drop_last() =~= a + b1);
        assert((a + b).last() == b.last());
        let (s1, e1) = annexb_run(st, a);
        let (s2, e2) = annexb_run(s1, b1);
        let (s3, e3) = annexb_step(s2, b.last());
        assert(e1 + e2 + e3 =~= e1 + (e2 + e3));
    }
}

/// Bytes without a zero pass straight through within a NAL unit.
proof fn lemma_run_nonzero(s: Seq<u8>)
    requires
        forall|j: int| 0 <= j < s.len() ==> s[j] != 0,
    ensures
        annexb_run(ParseState::InUnit, s) == (ParseState::InUnit, bytes_events(s)),
    decreases s.len(),
{
    if s.len() == 0 {
        assert(bytes_events(s) =~= Seq::<FragmentEvent>::empty());
    } else {
        let s1 = s.drop_last();
        lemma_run_nonzero(s1);
        assert(bytes_events(s1) + bytes_events(seq![s.last()]) =~= bytes_events(s));
    }
}

/// The bytes held back and not yet handed over in a push are `fake` zeros from before it
/// and `buf[start..i]`; they end with the zeros the state holds back, before which comes a
/// non-zero byte or nothing, and everything before the held zeros completes what was
/// handed over to `target`.
pub open spec fn pending_ok(
    buf: Seq<u8>,
    i: int,
    fas: Option<(usize, usize)>,
    st: ParseState,
    emitted: Seq<FragmentEvent>,
    target: Seq<FragmentEvent>,
) -> bool {
    match fas {
        None => !in_unit(st) && emitted == target,
        Some((fake, start)) => {
            let p = bytes_events(zeros(fake as nat) + buf.subrange(start as int, i));
            let bt = held(st) as int;
            &&& in_unit(st)
            &&& fake <= 2
            &&& start <= i
            &&& p.len() >= bt
            &&& p.skip(p.len() - bt) == bytes_events(zeros(bt as nat))
            &&& (p.len() == bt || p[p.len() - bt - 1] != FragmentEvent::Byte(0))
            &&& emitted + p.take(p.len() - bt) == target
        },
    }
}

/// What `maybe_emit` hands to the fragment handler.
pub open spec fn emit_events(buf: Seq<u8>, fas: Option<(usize, usize)>, end: int, backtrack: int, is_end: bool) -> Seq<FragmentEvent> {
    match fas {
        Some((fake, start)) => if start + backtrack < end {
            bytes_events(zeros(fake as nat) + buf.subrange(start as int, end - backtrack)) + end_events(is_end)
        } else {
            end_events(is_end)
        },
        None => Seq::empty(),
    }
}

/// The held-back zeros leave exactly the pending bytes before them to hand over.
proof fn lemma_emit_pending(buf: Seq<u8>, i: int, fake: usize, start: usize, st: ParseState, emitted: Seq<FragmentEvent>, target: Seq<FragmentEvent>, is_end: bool)
    requires
        pending_ok(buf, i, Some((fake, start)), st, emitted, target),
        i <= buf.len(),
    ensures
        emitted + emit_events(buf, Some((fake, start)), i, held(st) as int, is_end) == target + end_events(is_end),
{
    let bt = held(st) as int;
    let q = zeros(fake as nat) + buf.subrange(start as int, i);
    let p = bytes_events(q);
    let x = p.take(p.len() - bt);
    if start + bt < i {
        assert(bytes_events(zeros(fake as nat) + buf.subrange(start as int, i - bt)) =~= x);
        assert(emitted + (x + end_events(is_end)) =~= emitted + x + end_events(is_end));
    } else {
        if x.len() > 0 {
            assert(x.last() == p[p.len() - bt - 1]);
            assert(q[p.len() - bt - 1] == 0) by {
                if p.len() - bt - 1 >= fake {
                    assert(p.len() - bt - 1 - fake < i - start - bt);
                }
            }
            assert(false);
        }
        assert(x =~= Seq::<FragmentEvent>::empty());
        assert(emitted + Seq::<FragmentEvent>::empty() =~= emitted);
    }
}

/// Push parser for Annex B format which delegates to a [`NalFragmentHandler`], most commonly
/// a [`NalAccumulator`].
///
/// When corruption is detected, the reader recovers on the next start code boundary.
///
/// Guarantees that the bytes supplied to [`NalFragmentHandler`] (the concatenation of all
/// `buf`s supplied to `NalFragmentHandler::nal_fragment`) will be exactly the same for a given
/// Annex B stream, regardless of boundaries of `AnnexBReader::push` calls.
pub struct AnnexBReader<H: NalFragmentHandler> {
    state: ParseState,
    inner: H,
    /// Everything handed to `inner` so far.
    handed: Ghost<Seq<FragmentEvent>>,
    /// Every call made to `inner` so far.
    calls: Ghost<Seq<FragmentCall>>,
}

impl<H: AccumulatedNalHandler> AnnexBReader<NalAccumulator<H>> {
    /// Constructs an `AnnexBReader` with a `NalAccumulator`.
    pub fn accumulate(inner: H) -> (r: Self)
        ensures
            r.spec_state() == ParseState::Start,
            r.fragments() == Seq::<FragmentEvent>::empty(),
            r.calls() == Seq::<FragmentCall>::empty(),
            r.spec_handler().spec_handler() == inner,
            r.spec_handler().handed() == Seq::<crate::push::HandedNal>::empty(),
    {
        AnnexBReader::for_fragment_handler(NalAccumulator::new(inner))
    }

    /// Gets a reference to the underlying [`AccumulatedNalHandler`].
    pub fn nal_handler_ref(&self) -> (h: &H)
        ensures
            *h == self.spec_handler().spec_handler(),
    {
        self.inner.handler()
    }

    /// Gets a mutable reference to the underlying [`AccumulatedNalHandler`].
    pub fn nal_handler_mut(&mut self) -> (h: &mut H)
        ensures
            *h == old(self).spec_handler().spec_handler(),
            final(self).spec_handler().spec_handler() == *final(h),
            final(self).spec_state() == old(self).spec_state(),
            final(self).fragments() == old(self).fragments(),
            final(self).calls() == old(self).calls(),
    {
        self.inner.handler_mut()
    }

    /// Unwraps the `AnnexBReader<H>`, returning the inner [`AccumulatedNalHandler`].
    pub fn into_nal_handler(self) -> (h: H)
        ensures
            h == self.spec_handler().spec_handler(),
    {
        self.inner.into_handler()
    }
}

impl<H: NalFragmentHandler> AnnexBReader<H> {
    /// The parse state.
    pub closed spec fn spec_state(&self) -> ParseState {
        self.state
    }

    /// Everything handed to the fragment handler so far.
    pub closed spec fn fragments(&self) -> Seq<FragmentEvent> {
        self.handed@
    }

    /// Every call made to the fragment handler so far.
    pub closed spec fn calls(&self) -> Seq<FragmentCall> {
        self.calls@
    }

    /// The fragment handler.
    pub closed spec fn spec_handler(&self) -> H {
        self.inner
    }

    /// Constructs an `AnnexBReader` with a custom [`NalFragmentHandler`].
    pub fn for_fragment_handler(inner: H) -> (r: Self)
        ensures
            r.spec_state() == ParseState::Start,
            r.fragments() == Seq::<FragmentEvent>::empty(),
            fragments_clean(r.fragments()),
            r.calls() == Seq::<FragmentCall>::empty(),
            r.spec_handler() == inner,
    {
        AnnexBReader { state: ParseState::Start, inner, handed: Ghost(Seq::empty()), calls: Ghost(Seq::empty()) }
    }

    /// Gets a reference to the underlying [`NalFragmentHandler`].
    pub fn fragment_handler_ref(&self) -> (h: &H)
        ensures
            *h == self.spec_handler(),
    {
        &self.inner
    }

    /// Gets a mutable reference to the underlying [`NalFragmentHandler`].
    pub fn fragment_handler_mut(&mut self) -> (h: &mut H)
        ensures
            *h == old(self).spec_handler(),
            final(self).spec_handler() == *final(h),
            final(self).spec_state() == old(self).spec_state(),
            final(self).fragments() == old(self).fragments(),
            final(self).calls() == old(self).calls(),
    {
        &mut self.inner
    }

    /// Unwraps the `AnnexBReader<H>`, returning the inner [`NalFragmentHandler`].
    pub fn into_fragment_handler(self) -> (h: H)
        ensures
            h == self.spec_handler(),
    {
        self.inner
    }

    /// Hands fragments to the handler and records them.
    fn hand(&mut self, bufs: &[&[u8]], end: bool)
        requires
            chunks_non_empty(bufs@),
            bufs@.len() > 0 || end,
        ensures
            final(self).state == old(self).state,
            final(self).handed@ == old(self).handed@ + bytes_events(chunks_bytes(bufs@)) + end_events(end),
            calls_extended(old(self).calls@, final(self).calls@),
    {
        self.inner.nal_fragment(bufs, end);
        self.handed = Ghost(self.handed@ + bytes_events(chunks_bytes(bufs@)) + end_events(end));
        let ghost c0 = self.calls@;
        let ghost call = FragmentCall { chunks: crate::nal::chunk_views(bufs@), end };
        self.calls = Ghost(c0.push(call));
        proof {
            assert(self.calls@.take(c0.len() as int) =~= c0);
            assert forall|j: int| 0 <= j < call.chunks.len() implies (#[trigger] call.chunks[j]).len() > 0 by {
                assert(call.chunks[j] == bufs@[j]@);
            }
            assert(self.calls@[c0.len() as int] == call);
        }
    }

    /// Hands over the pending bytes `fake` zeros and `buf[start..end - backtrack]`, if there
    /// are any, and the NAL end if `is_end`.
    fn maybe_emit(&mut self, buf: &[u8], fake_and_start: Option<(usize, usize)>, end: usize, backtrack: usize, is_end: bool)
        requires
            end <= buf@.len(),
            backtrack <= 2,
            fake_and_start matches Some((fake, start)) ==> fake <= 2 && start <= end,
        ensures
            final(self).state == old(self).state,
            final(self).handed@ == old(self).handed@ + emit_events(buf@, fake_and_start, end as int, backtrack as int, is_end),
            calls_extended(old(self).calls@, final(self).calls@),
    {
        let ghost h0 = self.handed@;
        proof { lemma_calls_extended_refl(self.calls@); }
        match fake_and_start {
            Some((fake, start)) => {
                if backtrack < end - start {
                    let part = vstd::slice::slice_subrange(buf, start, end - backtrack);
                    if fake > 0 {
                        let zero_bytes: [u8; 2] = [0u8, 0u8];
                        let z = vstd::slice::slice_subrange(vstd::array::array_as_slice(&zero_bytes), 0, fake);
                        let parts: Vec<&[u8]> = vec![z, part];
                        proof {
                            assert(z@ =~= zeros(fake as nat));
                            let v = crate::nal::chunk_views(parts@);
                            assert(v =~= seq![z@, part@]);
                            assert(v.drop_first() =~= seq![part@]);
                            assert(v.drop_first().drop_first() =~= Seq::<Seq<u8>>::empty());
                            assert(v.drop_first().drop_first().flatten() =~= Seq::<u8>::empty());
                            assert(v.drop_first().flatten() =~= part@ + v.drop_first().drop_first().flatten());
                            assert(v.flatten() =~= z@ + v.drop_first().flatten());
                            assert(chunks_bytes(parts@) =~= zeros(fake as nat) + buf@.subrange(start as int, end - backtrack));
                        }
                        self.hand(parts.as_slice(), is_end);
                        assert(h0 + bytes_events(chunks_bytes(parts@)) + end_events(is_end) =~= h0 + (bytes_events(chunks_bytes(parts@)) + end_events(is_end)));
                    } else {
                        let parts: Vec<&[u8]> = vec![part];
                        proof {
                            let v = crate::nal::chunk_views(parts@);
                            assert(v =~= seq![part@]);
                            assert(v.drop_first() =~= Seq::<Seq<u8>>::empty());
                            assert(v.drop_first().flatten() =~= Seq::<u8>::empty());
                            assert(v.flatten() =~= part@ + v.drop_first().flatten());
                            assert(chunks_bytes(parts@) =~= zeros(fake as nat) + buf@.subrange(start as int, end - backtrack));
                        }
                        self.hand(parts.as_slice(), is_end);
                        assert(h0 + bytes_events(chunks_bytes(parts@)) + end_events(is_end) =~= h0 + (bytes_events(chunks_bytes(parts@)) + end_events(is_end)));
                    }
                } else if is_end {
                    let parts: Vec<&[u8]> = Vec::new();
                    proof {
                        assert(crate::nal::chunk_views(parts@) =~= Seq::<Seq<u8>>::empty());
                        assert(bytes_events(chunks_bytes(parts@)) =~= Seq::<FragmentEvent>::empty());
                        assert(self.handed@ + Seq::<FragmentEvent>::empty() =~= self.handed@);
                    }
                    self.hand(parts.as_slice(), true);
                    assert(h0 + Seq::<FragmentEvent>::empty() + end_events(true) =~= h0 + end_events(true));
                } else {
                    assert(self.handed@ + Seq::<FragmentEvent>::empty() =~= self.handed@);
                }
            },
            None => {
                assert(self.handed@ + Seq::<FragmentEvent>::empty() =~= self.handed@);
            },
        }
    }

    /// Pushes more bytes of the Annex B stream.
    pub fn push(&mut self, buf: &[u8])
        ensures
            final(self).spec_state() == annexb_run(old(self).spec_state(), buf@).0,
            final(self).fragments() == old(self).fragments() + annexb_run(old(self).spec_state(), buf@).1,
            fragments_clean(old(self).fragments()) ==> fragments_clean(final(self).fragments()),
            calls_extended(old(self).calls(), final(self).calls()),
    {
        let ghost st0 = self.state;
        let ghost e0 = self.handed@;
        let ghost c0 = self.calls@;
        proof { lemma_calls_extended_refl(c0); }
        // When in a NAL unit, start is the first index in buf with a byte to be pushed. Due to
        // backtracking, sometimes 0x00 bytes must be pushed that logically precede buf.
        let mut fake_and_start: Option<(usize, usize)> = match self.state.in_unit() {
            Some(s) => Some((s.backtrack_bytes, 0)),
            None => None,
        };
        proof {
            assert(buf@.take(0) =~= Seq::<u8>::empty());
            assert(e0 + Seq::<FragmentEvent>::empty() =~= e0);
            if in_unit(st0) {
                let p = bytes_events(zeros(held(st0)) + buf@.subrange(0, 0));
                assert(zeros(held(st0)) + buf@.subrange(0, 0) =~= zeros(held(st0)));
                assert(p.skip(0) =~= p);
                assert(p.take(0) =~= Seq::<FragmentEvent>::empty());
            }
        }
        let mut i: usize = 0;
        while i < buf.len()
            invariant
                i <= buf@.len(),
                self.state == annexb_run(st0, buf@.take(i as int)).0,
                pending_ok(buf@, i as int, fake_and_start, self.state, self.handed@, e0 + annexb_run(st0, buf@.take(i as int)).1),
                calls_extended(c0, self.calls@),
            decreases buf@.len() - i,
        {
            let b = buf[i];
            proof {
                assert(buf@.take(i + 1) =~= buf@.take(i as int).push(b));
                lemma_run_push(st0, buf@.take(i as int), b);
            }
            match self.state {
                ParseState::Start => {
                    self.state = if b == 0 { ParseState::StartOneZero } else { ParseState::Start };
                    proof { lemma_append_none(e0, annexb_run(st0, buf@.take(i as int)).1); }
                    i = i + 1;
                },
                ParseState::StartOneZero => {
                    self.state = if b == 0 { ParseState::StartTwoZero } else { ParseState::Start };
                    proof { lemma_append_none(e0, annexb_run(st0, buf@.take(i as int)).1); }
                    i = i + 1;
                },
                ParseState::StartTwoZero => {
                    if b == 1 {
                        fake_and_start = Some((0, i + 1));
                        self.state = ParseState::InUnit;
                        proof {
                            lemma_append_none(e0, annexb_run(st0, buf@.take(i as int)).1);
                            lemma_fresh_pending(buf@, (i + 1) as usize, self.handed@, e0 + annexb_run(st0, buf@.take(i + 1)).1);
                        }
                    } else if b != 0 {
                        self.state = ParseState::Start;
                    }
                    proof { lemma_append_none(e0, annexb_run(st0, buf@.take(i as int)).1); }
                    i = i + 1;
                },
                ParseState::InUnit => {
                    let remaining = vstd::slice::slice_subrange(buf, i, buf.len());
                    match find_byte(0, remaining) {
                        Some(pos) => {
                            proof {
                                assert forall|j: int| i <= j < i + pos implies buf@[j] != 0 by {
                                    assert(remaining@[j - i] == buf@[j]);
                                }
                                assert(remaining@[pos as int] == buf@[i + pos]);
                                lemma_in_unit_run(buf@, i as int, (i + pos) as int, st0, fake_and_start, self.handed@, e0);
                            }
                            self.state = ParseState::InUnitOneZero;
                            i = i + pos + 1;
                        },
                        None => {
                            proof {
                                assert forall|j: int| i <= j < buf@.len() implies buf@[j] != 0 by {
                                    assert(remaining@[j - i] == buf@[j]);
                                }
                                lemma_in_unit_rest(buf@, i as int, st0, fake_and_start, self.handed@, e0);
                            }
                            i = buf.len();
                        },
                    }
                },
                ParseState::InUnitOneZero => {
                    proof { lemma_one_zero_step(buf@, i as int, st0, fake_and_start, self.handed@, e0); }
                    self.state = if b == 0 { ParseState::InUnitTwoZero } else { ParseState::InUnit };
                    i = i + 1;
                },
                ParseState::InUnitTwoZero => {
                    if b == 0 || b == 1 {
                        let ghost t = e0 + annexb_run(st0, buf@.take(i as int)).1;
                        proof {
                            let (fake, start) = fake_and_start.unwrap();
                            lemma_emit_pending(buf@, i as int, fake, start, self.state, self.handed@, t, true);
                        }
                        let ghost c1 = self.calls@;
                        self.maybe_emit(buf, fake_and_start, i, 2, true);
                        proof { lemma_calls_extended_trans(c0, c1, self.calls@); }
                        if b == 0 {
                            fake_and_start = None;
                            self.state = ParseState::StartTwoZero;
                        } else {
                            fake_and_start = Some((0, i + 1));
                            self.state = ParseState::InUnit;
                        }
                        proof {
                            assert(t + seq![FragmentEvent::End] =~= e0 + annexb_run(st0, buf@.take(i + 1)).1);
                            if b == 1 {
                                lemma_fresh_pending(buf@, (i + 1) as usize, self.handed@, e0 + annexb_run(st0, buf@.take(i + 1)).1);
                            }
                        }
                    } else {
                        proof { lemma_two_zero_other(buf@, i as int, st0, fake_and_start, self.handed@, e0); }
                        self.state = ParseState::InUnit;
                    }
                    i = i + 1;
                },
            }
        }
        proof {
            assert(buf@.take(buf@.len() as int) =~= buf@);
        }
        if let Some(in_unit) = self.state.in_unit() {
            let ghost t = e0 + annexb_run(st0, buf@).1;
            proof {
                let (fake, start) = fake_and_start.unwrap();
                lemma_emit_pending(buf@, buf@.len() as int, fake, start, self.state, self.handed@, t, false);
                assert(t + Seq::<FragmentEvent>::empty() =~= t);
            }
            let ghost c1 = self.calls@;
            self.maybe_emit(buf, fake_and_start, buf.len(), in_unit.backtrack_bytes, false);
            proof { lemma_calls_extended_trans(c0, c1, self.calls@); }
        }
        proof {
            if fragments_clean(e0) {
                lemma_annexb_output_clean(e0, st0, buf@);
            }
        }
    }

    /// To be invoked when calling code knows that the end of a sequence of NAL unit data has
    /// been reached: hands over the zeros held back and ends the current NAL unit, if any.
    pub fn reset(&mut self)
        ensures
            final(self).spec_state() == ParseState::Start,
            final(self).fragments() == old(self).fragments() + if in_unit(old(self).spec_state()) {
                bytes_events(zeros(held(old(self).spec_state()))) + seq![FragmentEvent::End]
            } else {
                Seq::<FragmentEvent>::empty()
            },
            fragments_clean(old(self).fragments()) ==> fragments_clean(final(self).fragments()),
            calls_extended(old(self).calls(), final(self).calls()),
    {
        proof {
            lemma_calls_extended_refl(self.calls@);
            if fragments_clean(self.handed@) {
                lemma_annexb_reset_clean(self.handed@, self.state);
            }
        }
        if let Some(in_unit) = self.state.in_unit() {
            // Zeros that might have become a start code, but the input ended: hand them over.
            let bt = in_unit.backtrack_bytes;
            if bt > 0 {
                let zero_bytes: [u8; 2] = [0u8, 0u8];
                let z = vstd::slice::slice_subrange(vstd::array::array_as_slice(&zero_bytes), 0, bt);
                let parts: Vec<&[u8]> = vec![z];
                proof {
                    let v = crate::nal::chunk_views(parts@);
                    assert(v =~= seq![z@]);
                    assert(v.drop_first() =~= Seq::<Seq<u8>>::empty());
                    assert(v.drop_first().flatten() =~= Seq::<u8>::empty());
                    assert(v.flatten() =~= z@ + v.drop_first().flatten());
                    assert(z@ =~= zeros(bt as nat));
                    assert(chunks_bytes(parts@) =~= zeros(bt as nat));
                }
                self.hand(parts.as_slice(), true);
            } else {
                let parts: Vec<&[u8]> = Vec::new();
                proof {
                    assert(crate::nal::chunk_views(parts@) =~= Seq::<Seq<u8>>::empty());
                    assert(chunks_bytes(parts@) =~= zeros(0));
                }
                self.hand(parts.as_slice(), true);
            }
        } else {
            assert(self.handed@ + Seq::<FragmentEvent>::empty() =~= self.handed@);
        }
        self.state = ParseState::Start;
    }
}

proof fn lemma_append_none(a: Seq<FragmentEvent>, b: Seq<FragmentEvent>)
    ensures
        a + (b + Seq::<FragmentEvent>::empty()) == a + b,
{
    assert(b + Seq::<FragmentEvent>::empty() =~= b);
}

/// A unit that starts at `start`, with everything before it handed over, is consistent.
proof fn lemma_fresh_pending(buf: Seq<u8>, start: usize, emitted: Seq<FragmentEvent>, target: Seq<FragmentEvent>)
    requires
        start <= buf.len(),
        emitted == target,
    ensures
        pending_ok(buf, start as int, Some((0usize, start)), ParseState::InUnit, emitted, target),
{
    let p = bytes_events(zeros(0) + buf.subrange(start as int, start as int));
    assert(zeros(0) + buf.subrange(start as int, start as int) =~= Seq::<u8>::empty());
    assert(p =~= Seq::<FragmentEvent>::empty());
    assert(p.skip(0) =~= bytes_events(zeros(0)));
    assert(p.take(0) =~= Seq::<FragmentEvent>::empty());
    assert(emitted + p.take(0) =~= emitted);
}

proof fn lemma_in_unit_run(buf: Seq<u8>, i: int, z: int, st0: ParseState, fas: Option<(usize, usize)>, emitted: Seq<FragmentEvent>, e0: Seq<FragmentEvent>)
    requires
        0 <= i <= z < buf.len(),
        annexb_run(st0, buf.take(i)).0 == ParseState::InUnit,
        pending_ok(buf, i, fas, ParseState::InUnit, emitted, e0 + annexb_run(st0, buf.take(i)).1),
        buf[z] == 0,
        forall|j: int| i <= j < z ==> buf[j] != 0,
    ensures
        annexb_run(st0, buf.take(z + 1)).0 == ParseState::InUnitOneZero,
        pending_ok(buf, z + 1, fas, ParseState::InUnitOneZero, emitted, e0 + annexb_run(st0, buf.take(z + 1)).1),
{
    let mid = buf.subrange(i, z);
    lemma_run_nonzero(mid);
    lemma_annexb_chunking(st0, buf.take(i), mid);
    assert(buf.take(i) + mid =~= buf.take(z));
    assert(buf.take(z + 1) =~= buf.take(z).push(0u8));
    lemma_run_push(st0, buf.take(z), 0u8);
    let t0 = e0 + annexb_run(st0, buf.take(i)).1;
    let t1 = e0 + annexb_run(st0, buf.take(z + 1)).1;
    assert(t1 =~= t0 + bytes_events(mid));
    let (fake, start) = fas.unwrap();
    let q0 = zeros(fake as nat) + buf.subrange(start as int, i);
    let q1 = zeros(fake as nat) + buf.subrange(start as int, z + 1);
    assert(q1 =~= q0 + mid + seq![0u8]);
    let p0 = bytes_events(q0);
    let p1 = bytes_events(q1);
    assert(p1.take(p1.len() - 1) =~= p0 + bytes_events(mid));
    assert(p1.skip(p1.len() - 1) =~= bytes_events(zeros(1)));
    assert(emitted + (p0 + bytes_events(mid)) =~= emitted + p0 + bytes_events(mid));
    assert(p0.take(p0.len() as int) =~= p0);
    if p1.len() > 1 {
        if z > i {
            assert(p1[p1.len() - 2] == FragmentEvent::Byte(buf[z - 1]));
        } else {
            assert(p1[p1.len() - 2] == p0[p0.len() - 1]);
        }
    }
}

#[verifier::rlimit(40)]
proof fn lemma_in_unit_rest(buf: Seq<u8>, i: int, st0: ParseState, fas: Option<(usize, usize)>, emitted: Seq<FragmentEvent>, e0: Seq<FragmentEvent>)
    requires
        0 <= i < buf.len(),
        annexb_run(st0, buf.take(i)).0 == ParseState::InUnit,
        pending_ok(buf, i, fas, ParseState::InUnit, emitted, e0 + annexb_run(st0, buf.take(i)).1),
        forall|j: int| i <= j < buf.len() ==> buf[j] != 0,
    ensures
        annexb_run(st0, buf.take(buf.len() as int)).0 == ParseState::InUnit,
        pending_ok(buf, buf.len() as int, fas, ParseState::InUnit, emitted, e0 + annexb_run(st0, buf.take(buf.len() as int)).1),
{
    let mid = buf.subrange(i, buf.len() as int);
    lemma_run_nonzero(mid);
    lemma_annexb_chunking(st0, buf.take(i), mid);
    assert(buf.take(i) + mid =~= buf.take(buf.len() as int));
    let (fake, start) = fas.unwrap();
    let q0 = zeros(fake as nat) + buf.subrange(start as int, i);
    let q1 = zeros(fake as nat) + buf.subrange(start as int, buf.len() as int);
    assert(q1 =~= q0 + mid);
    let p0 = bytes_events(q0);
    let p1 = bytes_events(q1);
    assert(p1 =~= p0 + bytes_events(mid));
    assert(p1.take(p1.len() as int) =~= p1);
    assert(p0.take(p0.len() as int) =~= p0);
    assert(p1.skip(p1.len() as int) =~= bytes_events(zeros(0)));
    assert(e0 + annexb_run(st0, buf.take(buf.len() as int)).1 =~= e0 + annexb_run(st0, buf.take(i)).1 + bytes_events(mid));
    assert(emitted + (p0 + bytes_events(mid)) =~= emitted + p0 + bytes_events(mid));
    if p1.len() > 0 {
        if mid.len() > 0 {
            assert(p1[p1.len() - 1] == FragmentEvent::Byte(mid.last()));
        }
    }
}

proof fn lemma_one_zero_step(buf: Seq<u8>, i: int, st0: ParseState, fas: Option<(usize, usize)>, emitted: Seq<FragmentEvent>, e0: Seq<FragmentEvent>)
    requires
        0 <= i < buf.len(),
        annexb_run(st0, buf.take(i)).0 == ParseState::InUnitOneZero,
        pending_ok(buf, i, fas, ParseState::InUnitOneZero, emitted, e0 + annexb_run(st0, buf.take(i)).1),
        annexb_run(st0, buf.take(i + 1)) == ({
            let (s1, e1) = annexb_run(st0, buf.take(i));
            let (s2, e2) = annexb_step(s1, buf[i]);
            (s2, e1 + e2)
        }),
    ensures
        pending_ok(buf, i + 1, fas, annexb_run(st0, buf.take(i + 1)).0, emitted, e0 + annexb_run(st0, buf.take(i + 1)).1),
{
    let b = buf[i];
    let (fake, start) = fas.unwrap();
    let q0 = zeros(fake as nat) + buf.subrange(start as int, i);
    let q1 = zeros(fake as nat) + buf.subrange(start as int, i + 1);
    assert(q1 =~= q0.push(b));
    let p0 = bytes_events(q0);
    let p1 = bytes_events(q1);
    assert(p1 =~= p0.push(FragmentEvent::Byte(b)));
    let t0 = e0 + annexb_run(st0, buf.take(i)).1;
    let e1 = annexb_run(st0, buf.take(i)).1;
    assert(p0 =~= p0.take(p0.len() - 1) + p0.skip(p0.len() - 1));
    if b == 0 {
        assert(e1 + Seq::<FragmentEvent>::empty() =~= e1);
        assert(p1.skip(p1.len() - 2) =~= bytes_events(zeros(2)));
        assert(p1.take(p1.len() - 2) =~= p0.take(p0.len() - 1));
        assert(t0 + Seq::<FragmentEvent>::empty() =~= t0);
        if p1.len() > 2 {
            assert(p1[p1.len() - 3] == p0[p0.len() - 2]);
        }
    } else {
        assert(p1.take(p1.len() as int) =~= p1);
        assert(p1.skip(p1.len() as int) =~= bytes_events(zeros(0)));
        assert(p0 =~= p0.take(p0.len() - 1) + bytes_events(zeros(1)));
        assert(bytes_events(seq![0u8, b]) =~= bytes_events(zeros(1)) + seq![FragmentEvent::Byte(b)]);
        assert(emitted + p1 =~= emitted + p0.take(p0.len() - 1) + bytes_events(seq![0u8, b]));
        assert(e0 + e1 + bytes_events(seq![0u8, b]) =~= e0 + (e1 + bytes_events(seq![0u8, b])));
        assert(p1[p1.len() - 1] == FragmentEvent::Byte(b));
    }
}

proof fn lemma_two_zero_other(buf: Seq<u8>, i: int, st0: ParseState, fas: Option<(usize, usize)>, emitted: Seq<FragmentEvent>, e0: Seq<FragmentEvent>)
    requires
        0 <= i < buf.len(),
        buf[i] != 0 && buf[i] != 1,
        annexb_run(st0, buf.take(i)).0 == ParseState::InUnitTwoZero,
        pending_ok(buf, i, fas, ParseState::InUnitTwoZero, emitted, e0 + annexb_run(st0, buf.take(i)).1),
        annexb_run(st0, buf.take(i + 1)) == ({
            let (s1, e1) = annexb_run(st0, buf.take(i));
            let (s2, e2) = annexb_step(s1, buf[i]);
            (s2, e1 + e2)
        }),
    ensures
        pending_ok(buf, i + 1, fas, ParseState::InUnit, emitted, e0 + annexb_run(st0, buf.take(i + 1)).1),
{
    let b = buf[i];
    let (fake, start) = fas.unwrap();
    let q0 = zeros(fake as nat) + buf.subrange(start as int, i);
    let q1 = zeros(fake as nat) + buf.subrange(start as int, i + 1);
    assert(q1 =~= q0.push(b));
    let p0 = bytes_events(q0);
    let p1 = bytes_events(q1);
    assert(p1 =~= p0.push(FragmentEvent::Byte(b)));
    assert(p1.take(p1.len() as int) =~= p1);
    assert(p1.skip(p1.len() as int) =~= bytes_events(zeros(0)));
    assert(p0 =~= p0.take(p0.len() - 2) + p0.skip(p0.len() - 2));
    assert(p0 =~= p0.take(p0.len() - 2) + bytes_events(zeros(2)));
    let e1 = annexb_run(st0, buf.take(i)).1;
    assert(p1[p1.len() - 1] == FragmentEvent::Byte(b));
    assert(bytes_events(seq![0u8, 0u8, b]) =~= bytes_events(zeros(2)) + seq![FragmentEvent::Byte(b)]);
    assert(emitted + p1 =~= emitted + p0.take(p0.len() - 2) + bytes_events(seq![0u8, 0u8, b]));
    assert(e0 + e1 + bytes_events(seq![0u8, 0u8, b]) =~= e0 + (e1 + bytes_events(seq![0u8, 0u8, b])));
}

} // verus!
