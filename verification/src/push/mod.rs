//! Push parsing of encoded NALs.

use vstd::prelude::*;
use crate::nal::RefNal;

verus! {

/// [`AccumulatedNalHandler`]'s interest in receiving additional callbacks on a NAL.
#[derive(Copy, Clone, Debug, Eq, PartialEq, Structural)]
pub enum NalInterest {
    /// If this NAL is incomplete, buffer it and call again later.
    /// No effect if the NAL is complete.
    Buffer,
    /// Don't buffer any more of this NAL or make any more calls on it.
    Ignore,
}

/// [`NalAccumulator`] callback which handles partially- or completely-buffered NALs;
/// implemented by users of this library.
pub trait AccumulatedNalHandler {
    fn nal(&mut self, nal: RefNal<'_>) -> NalInterest;
}

/// Whether every chunk is non-empty.
pub open spec fn chunks_non_empty(bufs: Seq<&[u8]>) -> bool {
    forall|j: int| 0 <= j < bufs.len() ==> (#[trigger] bufs[j])@.len() > 0
}

/// The bytes of the chunks, in order.
pub open spec fn chunks_bytes(bufs: Seq<&[u8]>) -> Seq<u8> {
    crate::nal::chunk_views(bufs).flatten()
}

/// Handles arbitrary fragments of NALs. See [`NalAccumulator`].
pub trait NalFragmentHandler {
    /// Pushes a fragment of a NAL; each element of `bufs` (if there are any) is non-empty.
    fn nal_fragment(&mut self, bufs: &[&[u8]], end: bool)
        requires
            chunks_non_empty(bufs@),
    ;
}

/// A NAL handed to an [`AccumulatedNalHandler`]: its bytes, whether it was complete, and
/// the handler's reply.
pub ghost struct HandedNal {
    pub bytes: Seq<u8>,
    pub complete: bool,
    pub reply: NalInterest,
}

/// Whether [`NalAccumulator::nal_fragment`] calls the handler: unless a previous call on the
/// same NAL returned [`NalInterest::Ignore`], the NAL is totally empty, or `bufs` is empty and
/// `end` is false.
pub open spec fn calls_handler(buffered: Seq<u8>, interest: NalInterest, bufs: Seq<&[u8]>, end: bool) -> bool {
    &&& interest == NalInterest::Buffer
    &&& buffered.len() > 0 || bufs.len() > 0
    &&& bufs.len() > 0 || end
}

/// The buffered bytes and the interest after a fragment, given the handler's reply if it was
/// called: an end resets both; [`NalInterest::Buffer`] keeps the fragment for the next call,
/// [`NalInterest::Ignore`] stops calls on this NAL.
pub open spec fn after_fragment(
    buffered: Seq<u8>,
    interest: NalInterest,
    bufs: Seq<&[u8]>,
    end: bool,
    reply: Option<NalInterest>,
) -> (Seq<u8>, NalInterest) {
    if end {
        (Seq::empty(), NalInterest::Buffer)
    } else {
        match reply {
            Some(NalInterest::Buffer) => (buffered + chunks_bytes(bufs), NalInterest::Buffer),
            Some(NalInterest::Ignore) => (buffered, NalInterest::Ignore),
            None => (buffered, interest),
        }
    }
}

/// NAL accumulator for push parsers.
///
/// This is meant to be used by parsers for a specific format: Annex B, AVC, MPEG-TS, RTP, etc.
/// Accumulates NALs in an internal buffer and delegates to an [`AccumulatedNalHandler`].
pub struct NalAccumulator<H: AccumulatedNalHandler> {
    buf: Vec<u8>,
    nal_handler: H,
    interest: NalInterest,
    /// Every NAL handed to `nal_handler` so far.
    handed: Ghost<Seq<HandedNal>>,
}

impl<H: AccumulatedNalHandler> NalAccumulator<H> {
    /// Every NAL handed to the handler so far, with its replies.
    pub closed spec fn handed(&self) -> Seq<HandedNal> {
        self.handed@
    }

    /// The buffered start of the current NAL.
    pub closed spec fn buffered(&self) -> Seq<u8> {
        self.buf@
    }

    /// Whether the handler still wants calls on the current NAL.
    pub closed spec fn spec_interest(&self) -> NalInterest {
        self.interest
    }

    /// The handler.
    pub closed spec fn spec_handler(&self) -> H {
        self.nal_handler
    }

    /// Creates a new accumulator which delegates to the given `nal_handler` on every push.
    /// `nal_handler` always sees the NAL from the beginning.
    pub fn new(nal_handler: H) -> (r: Self)
        ensures
            r.buffered() == Seq::<u8>::empty(),
            r.spec_interest() == NalInterest::Buffer,
            r.spec_handler() == nal_handler,
            r.handed() == Seq::<HandedNal>::empty(),
    {
        NalAccumulator { buf: Vec::new(), interest: NalInterest::Buffer, nal_handler, handed: Ghost(Seq::empty()) }
    }

    /// Gets a reference to the handler.
    pub fn handler(&self) -> (h: &H)
        ensures
            *h == self.spec_handler(),
    {
        &self.nal_handler
    }

    /// Gets a mutable reference to the handler.
    pub fn handler_mut(&mut self) -> (h: &mut H)
        ensures
            *h == old(self).spec_handler(),
            final(self).spec_handler() == *final(h),
            final(self).buffered() == old(self).buffered(),
            final(self).spec_interest() == old(self).spec_interest(),
            final(self).handed() == old(self).handed(),
    {
        &mut self.nal_handler
    }

    /// Unwraps this `NalAccumulator<h>`, returning the inner handler.
    pub fn into_handler(self) -> (h: H)
        ensures
            h == self.spec_handler(),
    {
        self.nal_handler
    }
}

impl<H: AccumulatedNalHandler> NalAccumulator<H> {
    /// Settles the buffer and the interest after a fragment, given the handler's reply if it
    /// was called.
    fn settle(&mut self, bufs: &[&[u8]], end: bool, reply: Option<NalInterest>)
        ensures
            (final(self).buf@, final(self).interest) == after_fragment(old(self).buf@, old(self).interest, bufs@, end, reply),
            final(self).handed@ == old(self).handed@,
            final(self).nal_handler == old(self).nal_handler,
    {
        if end {
            self.buf.clear();
            self.interest = NalInterest::Buffer;
            return;
        }
        match reply {
            Some(NalInterest::Buffer) => {
                let ghost b0 = self.buf@;
                let mut k: usize = 0;
                assert(chunks_bytes(bufs@.take(0)) =~= Seq::<u8>::empty()) by {
                    assert(crate::nal::chunk_views(bufs@.take(0)) =~= Seq::<Seq<u8>>::empty());
                }
                assert(b0 + Seq::<u8>::empty() =~= b0);
                self.interest = NalInterest::Buffer;
                while k < bufs.len()
                    invariant
                        k <= bufs@.len(),
                        self.interest == NalInterest::Buffer,
                        self.handed@ == old(self).handed@,
                        self.nal_handler == old(self).nal_handler,
                        b0 == old(self).buf@,
                        self.buf@ == b0 + chunks_bytes(bufs@.take(k as int)),
                    decreases bufs@.len() - k,
                {
                    self.buf.extend_from_slice(bufs[k]);
                    proof {
                        lemma_chunks_bytes_push(bufs@, k as int);
                    }
                    k = k + 1;
                }
                assert(bufs@.take(bufs@.len() as int) =~= bufs@);
            },
            Some(NalInterest::Ignore) => {
                self.interest = NalInterest::Ignore;
            },
            None => {},
        }
    }
}

impl<H: AccumulatedNalHandler> NalFragmentHandler for NalAccumulator<H> {
    /// Calls `nal_handler` with the accumulated NAL unless a previous call on the same NAL
    /// returned [`NalInterest::Ignore`], the NAL is totally empty, or `bufs` is empty and
    /// `end` is false. The NAL passed is the buffered bytes followed by `bufs`, complete when
    /// `end`.
    fn nal_fragment(&mut self, bufs: &[&[u8]], end: bool)
        ensures
            calls_handler(old(self).buffered(), old(self).spec_interest(), bufs@, end) ==> {
                &&& final(self).handed().len() == old(self).handed().len() + 1
                &&& final(self).handed().drop_last() == old(self).handed()
                &&& final(self).handed().last().bytes == old(self).buffered() + chunks_bytes(bufs@)
                &&& final(self).handed().last().complete == end
                &&& (final(self).buffered(), final(self).spec_interest()) == after_fragment(
                    old(self).buffered(),
                    old(self).spec_interest(),
                    bufs@,
                    end,
                    Some(final(self).handed().last().reply),
                )
            },
            !calls_handler(old(self).buffered(), old(self).spec_interest(), bufs@, end) ==> {
                &&& final(self).handed() == old(self).handed()
                &&& final(self).spec_handler() == old(self).spec_handler()
                &&& (final(self).buffered(), final(self).spec_interest()) == after_fragment(
                    old(self).buffered(),
                    old(self).spec_interest(),
                    bufs@,
                    end,
                    None,
                )
            },
    {
        proof {
            assert(chunks_non_empty(bufs@));
        }
        let call = match self.interest {
            NalInterest::Buffer => (self.buf.len() > 0 || bufs.len() > 0) && (bufs.len() > 0 || end),
            NalInterest::Ignore => false,
        };
        if !call {
            self.settle(bufs, end, None);
            return;
        }
        let ghost b0 = self.buf@;
        let reply = if self.buf.len() > 0 {
            let nal = RefNal::new(self.buf.as_slice(), bufs, end);
            let ghost nb = nal.bytes();
            let reply = self.nal_handler.nal(nal);
            proof {
                assert(nb == b0 + chunks_bytes(bufs@));
                self.handed@ = self.handed@.push(HandedNal { bytes: nb, complete: end, reply });
            }
            reply
        } else {
            let rest = vstd::slice::slice_subrange(bufs, 1, bufs.len());
            let nal = RefNal::new(bufs[0], rest, end);
            let ghost nb = nal.bytes();
            let reply = self.nal_handler.nal(nal);
            proof {
                let v = crate::nal::chunk_views(bufs@);
                assert(crate::nal::chunk_views(rest@) =~= v.drop_first());
                assert(v.flatten() =~= v[0] + v.drop_first().flatten());
                assert(b0 =~= Seq::<u8>::empty());
                assert(nb =~= b0 + chunks_bytes(bufs@));
                self.handed@ = self.handed@.push(HandedNal { bytes: nb, complete: end, reply });
            }
            reply
        };
        self.settle(bufs, end, Some(reply));
        assert(self.handed@.drop_last() =~= old(self).handed@);
    }
}

/// The bytes of the first `k + 1` chunks are those of the first `k` followed by chunk `k`.
pub proof fn lemma_chunks_bytes_push(bufs: Seq<&[u8]>, k: int)
    requires
        0 <= k < bufs.len(),
    ensures
        chunks_bytes(bufs.take(k + 1)) == chunks_bytes(bufs.take(k)) + bufs[k]@,
{
    let a = crate::nal::chunk_views(bufs.take(k));
    let b = crate::nal::chunk_views(bufs.take(k + 1));
    assert(b =~= a.push(bufs[k]@));
    a.lemma_flatten_push(bufs[k]@);
}

} // verus!
