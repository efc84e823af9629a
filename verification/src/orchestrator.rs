//! The segment orchestrator: a state machine over the token stream.
//!
//! Tokens are accumulated into a buffer; whenever the buffer reaches the
//! segment size, a full segment is handed out for one pipeline pass. At end
//! of stream, a non-empty remainder becomes one final short segment. Memory
//! state is carried by the caller between the passes this machine hands out,
//! so the strict one-segment-at-a-time order here is what keeps each
//! segment's memory read prior to its own update.

use vstd::arithmetic::div_mod::{
    lemma_fundamental_div_mod, lemma_fundamental_div_mod_converse, lemma_mod_multiples_vanish,
    lemma_small_mod,
};
use vstd::prelude::*;

verus! {

/// The orchestrator's position in the stream.
#[derive(Clone, Copy, Debug, PartialEq, Eq, Structural)]
pub enum StreamState {
    /// Accepting tokens; full segments are dispatched as the buffer fills.
    Streaming,
    /// End of stream was seen with a non-empty remainder, which has been
    /// handed out as one final short segment and is still in flight.
    FlushingFinal,
    /// Every accepted token has been dispatched; the result is decided.
    Done,
}

/// Drives the pipeline over the whole token stream, one segment at a time,
/// and counts the tokens dispatched so that the caller knows the
/// denominator of the final running average — and whether there is one.
pub struct SegmentOrchestrator {
    segment_size: usize,
    buffer: Vec<usize>,
    processed: usize,
    state: StreamState,
    history: Ghost<Seq<usize>>,
}

impl SegmentOrchestrator {
    /// Every token ever accepted, in order.
    pub closed spec fn tokens(self) -> Seq<usize> {
        self.history@
    }

    /// Tokens accepted but not yet dispatched in a segment.
    pub closed spec fn pending(self) -> Seq<usize> {
        self.buffer@
    }

    /// Number of tokens already dispatched through the pipeline.
    pub closed spec fn processed_count(self) -> int {
        self.processed as int
    }

    /// The full-segment size this orchestrator was built with.
    pub closed spec fn seg_size(self) -> int {
        self.segment_size as int
    }

    /// The current state of the machine.
    pub closed spec fn phase(self) -> StreamState {
        self.state
    }

    /// The machine's invariant: the accepted tokens are exactly the
    /// dispatched ones followed by the pending buffer; while streaming, the
    /// dispatched count is a whole number of segments and the buffer is
    /// strictly short of one more.
    pub closed spec fn wf(self) -> bool {
        &&& self.segment_size >= 1
        &&& self.history@.len() <= usize::MAX
        &&& self.processed + self.buffer@.len() == self.history@.len()
        &&& self.buffer@ == self.history@.skip(self.processed as int)
        &&& match self.state {
            StreamState::Streaming => self.buffer@.len() < self.segment_size && self.processed as int
                % self.segment_size as int == 0,
            StreamState::FlushingFinal => self.buffer@.len() == 0 && self.processed as int
                % self.segment_size as int != 0,
            StreamState::Done => self.buffer@.len() == 0,
        }
    }

    /// A fresh orchestrator: no tokens seen, streaming.
    pub fn new(segment_size: usize) -> (s: SegmentOrchestrator)
        requires
            segment_size >= 1,
        ensures
            s.wf(),
            s.phase() is Streaming,
            s.seg_size() == segment_size,
            s.tokens() == Seq::<usize>::empty(),
            s.pending() == Seq::<usize>::empty(),
            s.processed_count() == 0,
    {
        let s = SegmentOrchestrator {
            segment_size,
            buffer: Vec::new(),
            processed: 0,
            state: StreamState::Streaming,
            history: Ghost(Seq::empty()),
        };
        proof {
            assert(s.history@.skip(0) =~= s.buffer@);
            lemma_small_mod(0, segment_size as nat);
        }
        s
    }

    /// Accepts one token. When it completes a full segment, that segment is
    /// returned for a pipeline pass and the buffer is cleared; otherwise the
    /// token is buffered.
    pub fn push_token(&mut self, t: usize) -> (seg: Option<Vec<usize>>)
        requires
            old(self).wf(),
            old(self).phase() is Streaming,
            old(self).tokens().len() < usize::MAX,
        ensures
            final(self).wf(),
            final(self).phase() is Streaming,
            final(self).seg_size() == old(self).seg_size(),
            final(self).tokens() == old(self).tokens().push(t),
            seg is Some <==> old(self).pending().len() + 1 == old(self).seg_size(),
            seg matches Some(v) ==> v@ == old(self).pending().push(t) && v@.len() == old(self).seg_size() && final(self).pending().len() == 0 && final(self).processed_count()
                == old(self).processed_count() + old(self).seg_size(),
            seg is None ==> final(self).pending() == old(self).pending().push(t)
                && final(self).processed_count() == old(self).processed_count(),
    {
        self.buffer.push(t);
        proof {
            self.history@ = self.history@.push(t);
            assert(self.history@.skip(self.processed as int) =~= old(self).history@.skip(
                self.processed as int,
            ).push(t));
        }
        if self.buffer.len() == self.segment_size {
            let mut seg: Vec<usize> = Vec::new();
            core::mem::swap(&mut self.buffer, &mut seg);
            self.processed = self.processed + self.segment_size;
            proof {
                assert(self.history@.skip(self.processed as int) =~= self.buffer@);
                lemma_mod_multiples_vanish(
                    1,
                    old(self).processed as int,
                    self.segment_size as int,
                );
            }
            Some(seg)
        } else {
            None
        }
    }

    /// Signals end of stream. A non-empty remainder is returned as one
    /// final short segment — strictly shorter than the segment size — and
    /// the machine moves to `FlushingFinal` until that pass is confirmed;
    /// with nothing pending it moves straight to `Done`.
    pub fn end_of_stream(&mut self) -> (rem: Option<Vec<usize>>)
        requires
            old(self).wf(),
            old(self).phase() is Streaming,
        ensures
            final(self).wf(),
            final(self).seg_size() == old(self).seg_size(),
            final(self).tokens() == old(self).tokens(),
            final(self).pending().len() == 0,
            rem is Some <==> old(self).pending().len() > 0,
            rem is None ==> final(self).phase() is Done
                && final(self).processed_count() == old(self).processed_count(),
            rem matches Some(v) ==> v@ == old(self).pending() && 0 < v@.len() < old(self).seg_size()
                && final(self).phase() is FlushingFinal
                && final(self).processed_count() == old(self).tokens().len(),
    {
        if self.buffer.len() == 0 {
            self.state = StreamState::Done;
            proof {
                assert(self.buffer@ =~= self.history@.skip(self.processed as int));
            }
            None
        } else {
            let mut rem: Vec<usize> = Vec::new();
            core::mem::swap(&mut self.buffer, &mut rem);
            self.processed = self.processed + rem.len();
            self.state = StreamState::FlushingFinal;
            proof {
                assert(self.history@.skip(self.processed as int) =~= self.buffer@);
                lemma_fundamental_div_mod(old(self).processed as int, self.segment_size as int);
                lemma_mod_multiples_vanish(
                    old(self).processed as int / self.segment_size as int,
                    rem@.len() as int,
                    self.segment_size as int,
                );
                lemma_small_mod(rem@.len(), self.segment_size as nat);
            }
            Some(rem)
        }
    }

    /// Confirms that the final short segment's pipeline pass has completed;
    /// the stream is now fully accounted for.
    pub fn flush_complete(&mut self)
        requires
            old(self).wf(),
            old(self).phase() is FlushingFinal,
        ensures
            final(self).wf(),
            final(self).phase() is Done,
            final(self).seg_size() == old(self).seg_size(),
            final(self).tokens() == old(self).tokens(),
            final(self).processed_count() == old(self).processed_count(),
    {
        self.state = StreamState::Done;
    }

    /// The decision at the end of the run: the number of tokens processed,
    /// or nothing at all for an empty stream — so the caller never divides
    /// a running sum by zero.
    pub fn final_count(&self) -> (r: Option<usize>)
        requires
            self.wf(),
            self.phase() is Done,
        ensures
            r is None <==> self.tokens().len() == 0,
            r matches Some(n) ==> n == self.tokens().len() && n > 0,
    {
        if self.processed == 0 {
            None
        } else {
            Some(self.processed)
        }
    }

    /// How many tokens have been accepted so far, dispatched or pending.
    pub fn accepted_count(&self) -> (n: usize)
        requires
            self.wf(),
        ensures
            n == self.tokens().len(),
    {
        self.processed + self.buffer.len()
    }

    /// The segmentation law: while streaming, the dispatched tokens form
    /// whole segments, and what is pending is exactly the stream length
    /// modulo the segment size — the suffix of the stream. So a stream
    /// whose length is not a multiple of the segment size always ends in
    /// exactly one short final segment, and one whose length is a multiple
    /// ends with nothing left over.
    pub proof fn lemma_segmentation(self)
        requires
            self.wf(),
            self.phase() is Streaming,
        ensures
            self.processed_count() % self.seg_size() == 0,
            self.pending().len() as int == self.tokens().len() as int % self.seg_size(),
            self.pending() == self.tokens().skip(
                self.tokens().len() - self.pending().len(),
            ),
    {
        let p = self.processed_count();
        let s = self.seg_size();
        let l = self.pending().len() as int;
        lemma_fundamental_div_mod(p, s);
        lemma_fundamental_div_mod_converse(p + l, s, p / s, l);
    }
}

} // verus!
