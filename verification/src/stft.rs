//! The geometry of the short-time Fourier transform the mark lives in.
//!
//! A 2048-sample Hann window at a hop of 512 satisfies the constant-overlap-add condition, so
//! analysis followed by synthesis with nothing changed in between returns the input. Which
//! windows a buffer holds, and where each starts, is decided here over whole numbers; the
//! transform itself runs on the samples of those windows.

use vstd::prelude::*;

verus! {

/// 2048 samples is 42.7 ms at 48 kHz: long enough that a bin is 23.44 Hz wide and the pattern
/// has somewhere to live, short enough that a block still averages several of them.
pub const WINDOW: usize = 2048;

/// 75 % overlap. Hann at this hop sums to a constant, which is what makes reconstruction exact.
pub const HOP: usize = 512;

/// The rate everything here assumes. The mark is applied after the resampler for exactly this
/// reason: a detector that has to guess the rate is guessing where every bin is.
pub const SAMPLE_RATE: u32 = 48_000;

/// Real input, so only the first half of the spectrum is independent.
pub const BINS: usize = 1025;

/// The frame layout of the transform. It holds no state of its own: a frame is a whole window
/// of the buffer, and frame `k` starts `k` hops in.
pub struct Stft;

/// Frame `frame` covers the samples `[frame * HOP, frame * HOP + WINDOW)`.
pub open spec fn frame_start(frame: nat) -> nat {
    frame * HOP as nat
}

/// How many whole windows a buffer of `len` samples holds when they start a hop apart.
pub open spec fn frame_count(len: nat) -> nat {
    if len < WINDOW {
        0
    } else {
        ((len - WINDOW) as nat) / (HOP as nat) + 1
    }
}

impl Stft {
    /// How many hops fit in a buffer, counting only whole windows.
    ///
    /// The count is exact: every counted frame ends inside the buffer, and the next one would
    /// not.
    pub fn frames(len: usize) -> (count: usize)
        ensures
            count == frame_count(len as nat),
            count == 0 <==> len < WINDOW,
            count > 0 ==> frame_start((count - 1) as nat) + WINDOW <= len,
            frame_start(count as nat) + WINDOW > len,
            count > 0 ==> (count - 1) * 512 + 2048 <= len < count * 512 + 2048,
            count == 0 ==> len < 2048,
    {
        if len < WINDOW {
            0
        } else {
            (len - WINDOW) / HOP + 1
        }
    }
}

} // verus!
