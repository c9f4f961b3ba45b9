//! The counting the detector does around its statistic: which bins a smoothing window spans,
//! how many one-second blocks the usable frames fall into, and when a verdict may say yes.
//!
//! The statistic itself is a correlation of log-magnitudes and is computed on the samples; what
//! is here decides, over whole numbers, how much evidence there is and whether it may count.

use vstd::prelude::*;

verus! {

/// A block is about a second: 94 hops of 512 samples at 48 kHz.
pub const HOPS_PER_BLOCK: usize = 94;

/// A frame with fewer audible carrying bins than this has nothing to correlate, and including
/// it would only dilute the blocks that do.
pub const MIN_BINS: usize = 128;

/// The spectral envelope is what the signal was doing anyway; the mark is a fast ripple across
/// frequency. Subtracting a nine-bin moving average is what makes the two separable.
pub const SMOOTHING: usize = 9;

/// Fewer blocks than this and the spread of the blocks cannot be estimated at all.
pub const MIN_BLOCKS: usize = 3;

/// How many decoy patterns the file is judged against. Enough that the spread of their
/// correlations is a usable estimate, few enough that the extra work is a rounding error next
/// to the transform, which is done once for all of them.
pub const DECOYS: usize = 31;

/// The bins `[start, end)` that the moving average around bin `index` of `len` spans: `span / 2`
/// on either side, cut off at both ends of the band.
pub fn smoothing_window(index: usize, len: usize, span: usize) -> (window: (usize, usize))
    requires
        index < len,
    ensures
        window.0 == if index >= span / 2 {
            index - span / 2
        } else {
            0
        },
        window.1 == if index + span / 2 + 1 <= len {
            index + span / 2 + 1
        } else {
            len as int
        },
        window.0 <= index < window.1 <= len,
{
    let half = span / 2;
    let start = if index >= half {
        index - half
    } else {
        0
    };
    let end = if half < len - index {
        index + half + 1
    } else {
        len
    };
    (start, end)
}

/// How many blocks `frames` usable frames fall into, a block being [`HOPS_PER_BLOCK`] frames
/// in order and the last one possibly shorter: every block gets one say, so a loud second
/// cannot outvote a quiet one.
pub fn block_count(frames: usize) -> (blocks: usize)
    ensures
        blocks == (frames + 93) / 94,
        blocks == 0 <==> frames == 0,
        blocks > 0 ==> (blocks - 1) * HOPS_PER_BLOCK < frames <= blocks * HOPS_PER_BLOCK,
{
    if frames == 0 {
        0
    } else {
        (frames - 1) / HOPS_PER_BLOCK + 1
    }
}

/// Whether a verdict says the mark is there: only when there are enough blocks to estimate a
/// spread at all, and the z-score against the decoys clears the threshold. Below
/// [`MIN_BLOCKS`] blocks the answer is always no.
pub fn is_marked(blocks: usize, clears_threshold: bool) -> (marked: bool)
    ensures
        marked <==> (blocks >= MIN_BLOCKS && clears_threshold),
        blocks < MIN_BLOCKS ==> !marked,
{
    blocks >= MIN_BLOCKS && clears_threshold
}

} // verus!
