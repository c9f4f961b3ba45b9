//! A machine-readable mark on synthetic audio, and the detector for it: the parts of it that
//! are decided over whole numbers and bytes, with their contracts proved.
//!
//! The mark is a spread-spectrum signature: a fixed ±1 pattern, derived from a key, nudges the
//! magnitudes of a band of short-time spectrum bins. What this crate proves is everything
//! about that pattern and the framing around it that does not need a floating-point number:
//! which bins carry the mark, how the pattern is derived from the key and kept apart from the
//! decoys it is judged against, how many whole windows a buffer holds, which inputs are
//! refused and with which error, and how the streaming marker delays its output by exactly one
//! window without dropping or inventing a sample.
//!
//! The key is inside the app that embeds. Anyone who extracts it can also remove the mark: the
//! mark exists for compliance and provenance, not for tamper-proofing.

use vstd::prelude::*;

pub mod detect;
pub mod pattern;
pub mod stft;
pub mod stream;

pub use stream::Marker;

verus! {

/// The project key.
///
/// It is in the open on purpose. The embedding happens on the phone, so the key ships inside
/// the APK whatever is done here; pretending otherwise would only mean the detector could not
/// be published, and a mark nobody can check is not a machine-readable mark.
///
/// The bytes spell `aftervoice/mark/v1/project-key!!`.
pub const MARK_KEY: [u8; 32] = [
    0x61, 0x66, 0x74, 0x65, 0x72, 0x76, 0x6f, 0x69,
    0x63, 0x65, 0x2f, 0x6d, 0x61, 0x72, 0x6b, 0x2f,
    0x76, 0x31, 0x2f, 0x70, 0x72, 0x6f, 0x6a, 0x65,
    0x63, 0x74, 0x2d, 0x6b, 0x65, 0x79, 0x21, 0x21,
];

/// Why a buffer, or a stream, was refused.
#[derive(Debug, Clone, Copy, PartialEq, Eq, Structural)]
pub enum MarkError {
    /// The mark is defined at `expected` Hz, not `actual` Hz.
    SampleRate { expected: u32, actual: u32 },
    /// A buffer shorter than one window (`.0 < .1`) has nowhere to carry a mark.
    TooShort(usize, usize),
    /// The buffer contains a sample that is not a finite number.
    NotFinite,
}

/// What [`check`] answers for a buffer of `len` samples at `sample_rate`, of which all are
/// finite exactly when `finite` holds: the rate is judged first, then the length, then the
/// samples.
pub open spec fn check_result(len: nat, sample_rate: u32, finite: bool) -> Result<(), MarkError> {
    if sample_rate != stft::SAMPLE_RATE {
        Err(MarkError::SampleRate { expected: stft::SAMPLE_RATE, actual: sample_rate })
    } else if len < stft::WINDOW {
        Err(MarkError::TooShort(len as usize, stft::WINDOW))
    } else if !finite {
        Err(MarkError::NotFinite)
    } else {
        Ok(())
    }
}

/// The checks both the embedder and the detector make before doing anything.
///
/// `finite` says whether every sample of the buffer is a finite number; the caller, which holds
/// the samples, answers that, and this decides what the answers together mean.
pub fn check(len: usize, sample_rate: u32, finite: bool) -> (result: Result<(), MarkError>)
    ensures
        result == check_result(len as nat, sample_rate, finite),
        result is Ok <==> (sample_rate == stft::SAMPLE_RATE && len >= stft::WINDOW && finite),
        sample_rate != 48_000 ==> result == Err::<(), MarkError>(
            MarkError::SampleRate { expected: 48_000, actual: sample_rate },
        ),
        sample_rate == 48_000 && len < 2048 ==> result == Err::<(), MarkError>(
            MarkError::TooShort(len, 2048),
        ),
        sample_rate == 48_000 && len >= 2048 && !finite ==> result == Err::<(), MarkError>(
            MarkError::NotFinite,
        ),
{
    if sample_rate != stft::SAMPLE_RATE {
        return Err(MarkError::SampleRate { expected: stft::SAMPLE_RATE, actual: sample_rate });
    }
    if len < stft::WINDOW {
        return Err(MarkError::TooShort(len, stft::WINDOW));
    }
    if !finite {
        return Err(MarkError::NotFinite);
    }
    Ok(())
}

} // verus!
