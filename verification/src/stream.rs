//! Marking a stream that never ends.
//!
//! The offline path takes a finite buffer and can look at all of it. The live mix cannot: it
//! arrives in blocks, the audio thread is waiting, and whatever comes out has to be the same
//! samples the offline path would have produced, only later.
//!
//! Later by exactly one window. A frame cannot be marked before its last sample has arrived,
//! and the caller must receive the same number of samples it supplied on every call. The marker
//! therefore emits one window of silence up front, then drains finished overlap-add hops from a
//! persistent queue. Keeping that queue across calls matters whenever a caller's block size is
//! not a multiple of the hop.
//!
//! [`Marker`] keeps that bookkeeping. A block goes through it in three steps: [`Marker::accept`]
//! takes the block in; while [`Marker::frame`] offers a whole window, the caller marks it,
//! overlap-adds it, and hands the finished hop back through [`Marker::advance`]; then
//! [`Marker::emit`] writes the delayed stream into the block. The contracts of those steps say
//! which window each frame is, and which sample lands in each slot of each block, for every
//! sequence of block sizes.

use vstd::prelude::*;

use std::collections::VecDeque;

use crate::pattern::{band_low, key_values, Pattern};
use crate::stft::{frame_count, frame_start, HOP, SAMPLE_RATE, WINDOW};
use crate::MarkError;

verus! {

/// The streaming marker's delay line, over samples of type `T`.
pub struct Marker<T> {
    /// The pattern every frame is marked with.
    pattern: Pattern,
    /// Samples waiting to become a frame.
    input: Vec<T>,
    /// Finished samples waiting for the caller. This has to survive across calls: Android's
    /// 2,400-sample render block is not a multiple of the 512-sample hop.
    ready: VecDeque<T>,
    /// Silence still owed before the delayed stream starts.
    latency_remaining: usize,
    /// Samples of the block being processed that have not been written back yet.
    pending: usize,
    /// Every sample ever accepted, in order.
    taken: Ghost<Seq<T>>,
    /// Every finished sample ever handed back, in order.
    finished: Ghost<Seq<T>>,
    /// How many samples have been written back so far.
    emitted: Ghost<nat>,
    /// What the caller receives while the first window is still owed: the type's default,
    /// which for `f32` is `0.0`.
    silence: T,
    /// Every sample ever written back, in order.
    output: Ghost<Seq<T>>,
}

/// The stream a marker writes back, `len` samples of it: `silence` for the first window, then
/// the finished samples in the order they were finished. Nothing in it depends on how the
/// input was cut into blocks.
pub open spec fn delayed_stream<T>(silence: T, finished: Seq<T>, len: nat) -> Seq<T> {
    Seq::new(
        len,
        |p: int|
            if p < WINDOW {
                silence
            } else {
                finished[p - WINDOW]
            },
    )
}

impl<T: Copy + Default> Marker<T> {
    /// What the caller gets back is this far behind what it gave: one whole window.
    pub const LATENCY_SAMPLES: usize = WINDOW;

    /// The pattern every frame is marked with.
    pub closed spec fn marking_pattern(&self) -> Pattern {
        self.pattern
    }

    /// What the caller receives while the first window is still owed.
    pub closed spec fn silence(&self) -> T {
        self.silence
    }

    /// Every sample written back so far, across all blocks.
    pub closed spec fn output(&self) -> Seq<T> {
        self.output@
    }

    /// Every sample accepted so far.
    pub closed spec fn taken(&self) -> Seq<T> {
        self.taken@
    }

    /// Every finished sample handed back so far, hop after hop.
    pub closed spec fn finished(&self) -> Seq<T> {
        self.finished@
    }

    /// How many samples have been written back into the caller's blocks so far.
    pub closed spec fn emitted(&self) -> nat {
        self.emitted@
    }

    /// How many samples of the current block are still to be written back.
    pub closed spec fn spec_pending(&self) -> nat {
        self.pending as nat
    }

    /// How many finished samples are queued for the caller.
    pub closed spec fn queued(&self) -> nat {
        self.ready@.len()
    }

    /// How many samples of silence are still owed before the delayed stream starts.
    pub closed spec fn silence_owed(&self) -> nat {
        self.latency_remaining as nat
    }

    /// How many frames have been finished: one per hop handed back.
    pub open spec fn frames_done(&self) -> nat {
        self.finished().len() / (HOP as nat)
    }

    /// Whether a whole window is waiting to be marked.
    pub open spec fn frame_waiting(&self) -> bool {
        self.taken().len() >= self.finished().len() + WINDOW
    }

    /// The state between the steps of the protocol.
    pub closed spec fn wf(&self) -> bool {
        &&& self.finished@.len() % (HOP as nat) == 0
        &&& self.finished@.len() <= self.taken@.len()
        &&& self.finished@.len() > 0 ==> self.finished@.len() - HOP + WINDOW <= self.taken@.len()
        &&& self.input@ == self.taken@.subrange(self.finished@.len() as int, self.taken@.len() as int)
        &&& self.taken@.len() == self.emitted@ + self.pending
        &&& self.latency_remaining == if self.emitted@ < WINDOW {
            (WINDOW - self.emitted@) as nat
        } else {
            0
        }
        &&& if self.emitted@ < WINDOW {
            self.ready@ == self.finished@
        } else {
            &&& self.emitted@ - WINDOW <= self.finished@.len()
            &&& self.ready@ == self.finished@.subrange(
                self.emitted@ - WINDOW,
                self.finished@.len() as int,
            )
        }
        &&& self.pending == 0 ==> self.input@.len() < WINDOW
        &&& self.output@ == delayed_stream(self.silence, self.finished@, self.emitted@)
    }

    /// A marker for a stream at `sample_rate`, marking with the pattern of `key`.
    ///
    /// Only the rate the mark is defined at is accepted; any other is refused with the rate it
    /// expected and the one it was given.
    pub fn new(sample_rate: u32, key: &[u8; 32]) -> (result: Result<Self, MarkError>)
        ensures
            result is Ok <==> sample_rate == SAMPLE_RATE,
            sample_rate != SAMPLE_RATE ==> result == Err::<Self, MarkError>(
                MarkError::SampleRate { expected: SAMPLE_RATE, actual: sample_rate },
            ),
            result matches Ok(marker) ==> {
                &&& marker.wf()
                &&& marker.marking_pattern().low_bin == band_low()
                &&& marker.marking_pattern().values@ == key_values(key@)
                &&& marker.taken() == Seq::<T>::empty()
                &&& marker.finished() == Seq::<T>::empty()
                &&& marker.emitted() == 0
                &&& marker.spec_pending() == 0
                &&& marker.silence_owed() == WINDOW
                &&& marker.output() == Seq::<T>::empty()
                &&& call_ensures(T::default, (), marker.silence())
            },
    {
        if sample_rate != SAMPLE_RATE {
            return Err(MarkError::SampleRate { expected: SAMPLE_RATE, actual: sample_rate });
        }
        let marker = Marker {
            pattern: Pattern::for_key(key),
            input: Vec::with_capacity(WINDOW * 2),
            ready: VecDeque::with_capacity(WINDOW * 2),
            latency_remaining: WINDOW,
            pending: 0,
            taken: Ghost(Seq::empty()),
            finished: Ghost(Seq::empty()),
            emitted: Ghost(0),
            silence: T::default(),
            output: Ghost(Seq::empty()),
        };
        assert(marker.input@ == marker.taken@.subrange(0, 0));
        assert(marker.output@ =~= delayed_stream(marker.silence, marker.finished@, 0));
        Ok(marker)
    }

    /// The pattern every frame is marked with.
    pub fn pattern(&self) -> (pattern: &Pattern)
        ensures
            *pattern == self.marking_pattern(),
    {
        &self.pattern
    }

    /// How many samples of the current block are still to be written back; zero between blocks.
    pub fn pending(&self) -> (pending: usize)
        ensures
            pending == self.spec_pending(),
    {
        self.pending
    }

    /// Takes a block in. Its samples join the queue of samples waiting to become frames.
    pub fn accept(&mut self, block: &[T])
        requires
            old(self).wf(),
            old(self).spec_pending() == 0,
        ensures
            final(self).wf(),
            final(self).marking_pattern() == old(self).marking_pattern(),
            final(self).taken() == old(self).taken() + block@,
            final(self).finished() == old(self).finished(),
            final(self).emitted() == old(self).emitted(),
            final(self).silence() == old(self).silence(),
            final(self).output() == old(self).output(),
            final(self).spec_pending() == block@.len(),
    {
        let ghost before = self.input@;
        let mut i: usize = 0;
        while i < block.len()
            invariant
                0 <= i <= block@.len(),
                self.input@ == before + block@.subrange(0, i as int),
                self.pattern == old(self).pattern,
                self.ready@ == old(self).ready@,
                self.latency_remaining == old(self).latency_remaining,
                self.pending == old(self).pending,
                self.taken@ == old(self).taken@,
                self.finished@ == old(self).finished@,
                self.emitted@ == old(self).emitted@,
                self.silence == old(self).silence,
                self.output@ == old(self).output@,
            decreases block@.len() - i,
        {
            self.input.push(block[i]);
            i += 1;
        }
        assert(block@.subrange(0, block@.len() as int) == block@);
        self.pending = block.len();
        proof {
            let old_taken = self.taken@;
            self.taken@ = old_taken + block@;
            assert(self.input@ == self.taken@.subrange(
                self.finished@.len() as int,
                self.taken@.len() as int,
            ));
        }
    }

    /// The next window to mark, if a whole one has arrived: frame `k` is the accepted samples
    /// from `k` hops in, a whole window of them.
    pub fn frame(&self) -> (frame: Option<Vec<T>>)
        requires
            self.wf(),
        ensures
            frame is Some <==> self.frame_waiting(),
            frame matches Some(samples) ==> samples@ == self.taken().subrange(
                frame_start(self.frames_done()) as int,
                frame_start(self.frames_done()) + WINDOW,
            ),
            frame matches Some(samples) ==> samples@.len() == 2048 && forall|i: int|
                0 <= i < 2048 ==> #[trigger] samples@[i] == self.taken()[self.frames_done() * 512
                    + i],
            self.finished().len() == frame_start(self.frames_done()),
    {
        if self.input.len() < WINDOW {
            return None;
        }
        let mut samples: Vec<T> = Vec::with_capacity(WINDOW);
        let mut i: usize = 0;
        while i < WINDOW
            invariant
                self.input@.len() >= WINDOW,
                0 <= i <= WINDOW,
                samples@ == self.input@.subrange(0, i as int),
            decreases WINDOW - i,
        {
            samples.push(self.input[i]);
            i += 1;
        }
        Some(samples)
    }

    /// Hands back the finished hop of the waiting frame: the first `HOP` samples of the
    /// overlap-add that no later frame will touch. The frame window slides on by one hop.
    pub fn advance(&mut self, hop: &[T])
        requires
            old(self).wf(),
            old(self).frame_waiting(),
            hop@.len() == HOP,
        ensures
            final(self).wf(),
            final(self).marking_pattern() == old(self).marking_pattern(),
            final(self).taken() == old(self).taken(),
            final(self).finished() == old(self).finished() + hop@,
            final(self).emitted() == old(self).emitted(),
            final(self).silence() == old(self).silence(),
            final(self).output() == old(self).output(),
            final(self).spec_pending() == old(self).spec_pending(),
    {
        let ghost ready_before = self.ready@;
        let mut i: usize = 0;
        while i < HOP
            invariant
                hop@.len() == HOP,
                0 <= i <= HOP,
                self.ready@ == ready_before + hop@.subrange(0, i as int),
                self.pattern == old(self).pattern,
                self.input@ == old(self).input@,
                self.latency_remaining == old(self).latency_remaining,
                self.pending == old(self).pending,
                self.taken@ == old(self).taken@,
                self.finished@ == old(self).finished@,
                self.emitted@ == old(self).emitted@,
                self.silence == old(self).silence,
                self.output@ == old(self).output@,
            decreases HOP - i,
        {
            self.ready.push_back(hop[i]);
            i += 1;
        }
        assert(hop@.subrange(0, HOP as int) == hop@);

        let mut rest: Vec<T> = Vec::with_capacity(self.input.len() - HOP);
        let mut j: usize = HOP;
        while j < self.input.len()
            invariant
                self.input@ == old(self).input@,
                self.input@.len() >= WINDOW,
                HOP <= j <= self.input@.len(),
                rest@ == self.input@.subrange(HOP as int, j as int),
            decreases self.input@.len() - j,
        {
            rest.push(self.input[j]);
            j += 1;
        }
        self.input = rest;
        proof {
            let old_finished = self.finished@;
            self.finished@ = old_finished + hop@;
            assert(self.input@ == self.taken@.subrange(
                self.finished@.len() as int,
                self.taken@.len() as int,
            ));
            if self.emitted@ >= WINDOW {
                assert(self.ready@ == self.finished@.subrange(
                    self.emitted@ - WINDOW,
                    self.finished@.len() as int,
                ));
            }
            assert(self.output@ =~= delayed_stream(self.silence, self.finished@, self.emitted@))
                by {
                assert(old(self).output@ == delayed_stream(
                    old(self).silence,
                    old_finished,
                    old(self).emitted@,
                ));
                assert forall|p: int| 0 <= p < self.emitted@ implies #[trigger] self.output@[p]
                    == delayed_stream(self.silence, self.finished@, self.emitted@)[p] by {
                    if p >= WINDOW {
                        assert(p - WINDOW < old_finished.len());
                    }
                }
            }
        }
    }

    /// Writes the delayed stream into `block`, which is the block just accepted: silence while
    /// a window of it is still owed, then the finished samples in the order they were finished.
    ///
    /// Slot `i` of the block receives the sample at position `emitted + i` of the output stream,
    /// and position `p` of that stream is silence for `p < WINDOW` and finished sample
    /// `p - WINDOW` after it: the offline result, exactly one window late, with nothing dropped
    /// and nothing inserted whatever the block sizes are.
    pub fn emit(&mut self, block: &mut [T])
        requires
            old(self).wf(),
            !old(self).frame_waiting(),
            old(block)@.len() == old(self).spec_pending(),
        ensures
            final(self).wf(),
            final(self).marking_pattern() == old(self).marking_pattern(),
            final(self).taken() == old(self).taken(),
            final(self).finished() == old(self).finished(),
            final(self).silence() == old(self).silence(),
            final(self).output() == old(self).output() + final(block)@,
            final(self).emitted() == old(self).emitted() + old(block)@.len(),
            final(self).emitted() == final(self).taken().len(),
            final(self).spec_pending() == 0,
            final(block)@.len() == old(block)@.len(),
            forall|i: int|
                0 <= i < old(block)@.len() ==> #[trigger] final(block)@[i] == if old(self).emitted()
                    + i < WINDOW {
                    old(self).silence()
                } else {
                    old(self).finished()[old(self).emitted() + i - WINDOW]
                },
    {
        proof {
            self.lemma_latency_covers_the_block();
        }
        let ghost start = self.emitted@;
        let ghost finished = self.finished@;
        let n = block.len();
        let mut i: usize = 0;
        while i < n
            invariant
                self.pattern == old(self).pattern,
                self.input@ == old(self).input@,
                self.pending == old(self).pending,
                self.taken@ == old(self).taken@,
                self.silence == old(self).silence,
                self.output@ == old(self).output@,
                n == old(block)@.len(),
                block@.len() == n,
                0 <= i <= n,
                self.finished@ == finished,
                self.emitted@ == start,
                start + n == self.taken@.len(),
                self.taken@.len() < finished.len() + WINDOW,
                self.latency_remaining == if start + i < WINDOW {
                    (WINDOW - (start + i)) as nat
                } else {
                    0
                },
                if start + i < WINDOW {
                    self.ready@ == finished
                } else {
                    &&& start + i - WINDOW <= finished.len()
                    &&& self.ready@ == finished.subrange(
                        start + i - WINDOW,
                        finished.len() as int,
                    )
                },
                forall|k: int|
                    0 <= k < i ==> #[trigger] block@[k] == if start + k < WINDOW {
                        self.silence
                    } else {
                        finished[start + k - WINDOW]
                    },
            decreases n - i,
        {
            if self.latency_remaining > 0 {
                block[i] = self.silence;
                self.latency_remaining -= 1;
            } else {
                match self.ready.pop_front() {
                    Some(sample) => {
                        block[i] = sample;
                    },
                    None => {
                        assert(false);
                    },
                }
            }
            i += 1;
        }
        self.pending = 0;
        proof {
            self.emitted@ = (start + n) as nat;
            let before = self.output@;
            self.output@ = before + block@;
            assert(self.output@ =~= delayed_stream(self.silence, self.finished@, self.emitted@))
                by {
                assert(before == delayed_stream(self.silence, finished, start));
                assert forall|p: int| 0 <= p < self.emitted@ implies #[trigger] self.output@[p]
                    == delayed_stream(self.silence, self.finished@, self.emitted@)[p] by {
                    if p >= start {
                        assert(self.output@[p] == block@[p - start]);
                    }
                }
            }
        }
    }

    /// Whatever sequence of blocks, of whatever lengths, a marker has been through: between
    /// blocks, exactly as many samples have come out as went in, and what came out is the
    /// delayed stream, silence for the first window and then every finished sample in order.
    /// Every delayed sample that was due had been finished, so none was dropped or invented.
    pub proof fn lemma_the_stream_is_its_input_one_window_late(&self)
        requires
            self.wf(),
            self.spec_pending() == 0,
        ensures
            self.output().len() == self.taken().len(),
            self.output() == delayed_stream(self.silence(), self.finished(), self.taken().len()),
            self.taken().len() < self.finished().len() + WINDOW,
            self.frames_done() == frame_count(self.taken().len()),
    {
        self.lemma_stream_marks_the_offline_frames();
    }

    /// How the input was cut into blocks does not matter: two markers that have taken in the
    /// same samples, however cut, have handed out the same frames, and if their frames were
    /// finished alike they have written back the same stream.
    pub proof fn lemma_cuts_do_not_matter(first: &Self, second: &Self)
        requires
            first.wf(),
            second.wf(),
            first.spec_pending() == 0,
            second.spec_pending() == 0,
            first.taken() == second.taken(),
            first.silence() == second.silence(),
        ensures
            first.frames_done() == second.frames_done(),
            first.finished() == second.finished() ==> first.output() == second.output(),
    {
        first.lemma_the_stream_is_its_input_one_window_late();
        second.lemma_the_stream_is_its_input_one_window_late();
    }

    /// Once every whole window has been marked, the stream has marked exactly the frames the
    /// offline transform cuts the same samples into: as many as [`crate::stft::Stft::frames`]
    /// counts, each a hop after the last.
    pub proof fn lemma_stream_marks_the_offline_frames(&self)
        requires
            self.wf(),
            !self.frame_waiting(),
        ensures
            self.frames_done() == frame_count(self.taken().len()),
            self.finished().len() == frame_start(frame_count(self.taken().len())),
    {
        let t = self.taken@.len();
        let f = self.finished@.len();
        assert(f == (f / 512) * 512);
        if t >= WINDOW {
            assert(f > 0);
            assert(((t - WINDOW) as nat) / 512 == f / 512 - 1) by {
                vstd::arithmetic::div_mod::lemma_fundamental_div_mod_converse(
                    (t - WINDOW) as int,
                    512,
                    f / 512 - 1,
                    (t - WINDOW) - (f - 512),
                );
            }
        }
    }

    /// A window of latency always leaves one finished sample per input sample: once every
    /// whole window has been marked, the silence still owed and the finished samples queued
    /// together cover the whole block.
    pub proof fn lemma_latency_covers_the_block(&self)
        requires
            self.wf(),
            !self.frame_waiting(),
        ensures
            self.queued() + self.silence_owed() >= self.spec_pending(),
            self.emitted() >= WINDOW ==> self.queued() >= self.spec_pending(),
    {
    }
}

} // verus!
