//! The sequence the mark is made of, and where in the spectrum it lives.
//!
//! The pattern is derived from the key and nothing else: the key is framed behind a domain
//! string, hashed with BLAKE3, and the digest seeds a ChaCha8 generator whose output words give
//! one sign each. The decoys the detector judges a file against are derived the same way from
//! their index behind a domain string of their own, so none of them can be fed the bytes the key
//! is fed.

use vstd::prelude::*;
use vstd::bytes::*;
use vstd::string::StringSliceAdditionalSpecFns;

use rand::{RngCore, SeedableRng};

use crate::stft::{BINS, SAMPLE_RATE, WINDOW};

verus! {

/// 1.3 kHz. Below this the product's own low-pass has shaped the voice and a mark would be
/// sitting in the band people are listening to; above it the bed dominates and masks by
/// construction. Bin 55 at a width of 23.44 Hz.
pub const BAND_LOW_HZ: u32 = 1_300;

/// 8 kHz. Above this there is neither voice nor bed on the devices measured, and a
/// perturbation in an empty band is a lone artefact rather than a modulation of anything.
pub const BAND_HIGH_HZ: u32 = 8_000;

/// The domain separator. A second one exists for the day the key is rotated; a detector would
/// then try both.
pub const DOMAIN: &'static str = "evp-voice/mark/v1";

/// The domain separator of the decoys. It differs from [`DOMAIN`] in length, which is what
/// keeps every decoy's hash input apart from every key's.
pub const DECOY_DOMAIN: &'static str = "evp-voice/mark/decoy/v1";

/// The bin whose lower edge is at or just below `hz`, at a width of `SAMPLE_RATE / WINDOW`.
pub open spec fn bin_of(hz: u32) -> nat {
    (hz as nat * WINDOW as nat) / (SAMPLE_RATE as nat)
}

/// The first bin that carries the mark.
pub open spec fn band_low() -> nat {
    bin_of(BAND_LOW_HZ)
}

/// The last bin that carries the mark.
pub open spec fn band_high() -> nat {
    bin_of(BAND_HIGH_HZ)
}

/// How many bins carry the mark, and so how many values a pattern has.
pub open spec fn band_len() -> nat {
    (band_high() - band_low() + 1) as nat
}

/// Bins are `sample_rate / window` apart; these are the first and last that carry the mark.
///
/// Both lie inside the half-spectrum, so every carrying bin has a value to perturb.
pub fn band() -> (bins: (usize, usize))
    ensures
        bins.0 == band_low(),
        bins.1 == band_high(),
        bins.0 <= bins.1 < BINS,
        bins == (55usize, 341usize),
{
    let low = (BAND_LOW_HZ as usize * WINDOW) / (SAMPLE_RATE as usize);
    let high = (BAND_HIGH_HZ as usize * WINDOW) / (SAMPLE_RATE as usize);
    (low, high)
}

/// A value written behind its length as a little-endian `u64`, so that no two sequences of
/// values run together into the same bytes.
pub open spec fn blob(value: Seq<u8>) -> Seq<u8> {
    spec_u64_to_le_bytes(value.len() as u64) + value
}

/// What is hashed to seed the pattern of `key`.
pub open spec fn key_message(key: Seq<u8>) -> Seq<u8> {
    blob(DOMAIN.spec_bytes()) + blob(key)
}

/// What is hashed to seed the decoy with index `index`.
pub open spec fn decoy_message(index: u64) -> Seq<u8> {
    blob(DECOY_DOMAIN.spec_bytes()) + spec_u64_to_le_bytes(index)
}

/// The sign a generator word gives: `+1` when its most significant bit is set. The word is
/// read little-endian, so that bit is the top bit of its last byte.
pub open spec fn sign_of(last_byte: u8) -> i8 {
    if last_byte >= 128 {
        1i8
    } else {
        -1i8
    }
}

/// One sign per 32-bit word of `stream`, for the first `count` words.
pub open spec fn signs(stream: Seq<u8>, count: nat) -> Seq<i8> {
    Seq::new(count, |i: int| sign_of(stream[4 * i + 3]))
}

/// The pattern values that a generator seeded with `seed` gives.
pub open spec fn seeded_values(seed: Seq<u8>) -> Seq<i8> {
    signs(chacha8_keystream(seed, 4 * band_len()), band_len())
}

/// The pattern values of `key`.
pub open spec fn key_values(key: Seq<u8>) -> Seq<i8> {
    seeded_values(blake3_digest(key_message(key)))
}

/// The values of the decoy with index `index`.
pub open spec fn decoy_values(index: nat) -> Seq<i8> {
    seeded_values(blake3_digest(decoy_message(index as u64)))
}

/// The BLAKE3 digest of `input`, as `blake3::hash` computes it.
pub uninterp spec fn blake3_digest(input: Seq<u8>) -> Seq<u8>;

/// The first `len` bytes of the ChaCha8 keystream that `rand_chacha::ChaCha8Rng` produces from
/// `seed`, as `RngCore::fill_bytes` writes them on a fresh generator.
pub uninterp spec fn chacha8_keystream(seed: Seq<u8>, len: nat) -> Seq<u8>;

/// Calls `blake3::hash`. The contract claims only that the digest is the one BLAKE3 gives for
/// these bytes, whatever that is.
#[verifier::external_body]
fn blake3_hash(input: &[u8]) -> (digest: [u8; 32])
    ensures
        digest@ == blake3_digest(input@),
{
    *blake3::hash(input).as_bytes()
}

/// Seeds `rand_chacha::ChaCha8Rng::from_seed` with `seed` and calls `RngCore::fill_bytes` on a
/// buffer of `len` bytes. The contract claims that the buffer is filled, all of it, with the
/// keystream of that seed, whatever it is. `fill_bytes` copies the generator's 32-bit words in
/// order, each little-endian, which is the same sequence of words `RngCore::next_u32` hands out.
#[verifier::external_body]
fn chacha8_fill(seed: [u8; 32], len: usize) -> (stream: Vec<u8>)
    ensures
        stream@ == chacha8_keystream(seed@, len as nat),
        stream@.len() == len,
{
    let mut rng = rand_chacha::ChaCha8Rng::from_seed(seed);
    let mut stream = vec![0u8; len];
    rng.fill_bytes(&mut stream);
    stream
}

/// Appends `value` behind its length.
fn write_blob(message: &mut Vec<u8>, value: &[u8])
    ensures
        final(message)@ == old(message)@ + blob(value@),
{
    let length = u64_to_le_bytes(value.len() as u64);
    let mut i: usize = 0;
    while i < length.len()
        invariant
            length@ == spec_u64_to_le_bytes(value@.len() as u64),
            0 <= i <= length@.len(),
            message@ == old(message)@ + length@.subrange(0, i as int),
        decreases length@.len() - i,
    {
        message.push(length[i]);
        i += 1;
    }
    let mut j: usize = 0;
    while j < value.len()
        invariant
            length@ == spec_u64_to_le_bytes(value@.len() as u64),
            0 <= j <= value@.len(),
            message@ == old(message)@ + length@ + value@.subrange(0, j as int),
        decreases value@.len() - j,
    {
        message.push(value[j]);
        j += 1;
    }
    assert(value@.subrange(0, value@.len() as int) == value@);
    assert(length@.subrange(0, length@.len() as int) == length@);
}

/// A fixed ±1 sequence, one value per carrying bin, and the same sequence in every block.
///
/// Repeating it is the answer to synchronisation, which is the real problem: a single pattern
/// as long as the clip slides and collapses the moment someone trims the first 200 ms or
/// resamples. With one-second tiles the detector searches each block on its own and integrates
/// what it finds.
pub struct Pattern {
    /// The bin the first value perturbs.
    pub low_bin: usize,
    /// One value per carrying bin, each `1` or `-1`.
    pub values: Vec<i8>,
}

impl Pattern {
    /// The pattern a keystream gives: one sign per 32-bit word, positive when the word's most
    /// significant bit is set, for every carrying bin in order.
    pub fn from_keystream(stream: &[u8]) -> (pattern: Pattern)
        requires
            stream@.len() == 4 * band_len(),
        ensures
            pattern.low_bin == band_low(),
            pattern.values@ == signs(stream@, band_len()),
            pattern.low_bin == 55,
            pattern.values@.len() == 287,
            forall|i: int|
                0 <= i < 287 ==> #[trigger] pattern.values@[i] == if stream@[4 * i + 3] >= 128 {
                    1i8
                } else {
                    -1i8
                },
    {
        let (low, high) = band();
        let count = high - low + 1;
        let mut values: Vec<i8> = Vec::new();
        let mut i: usize = 0;
        while i < count
            invariant
                count == band_len(),
                stream@.len() == 4 * count,
                0 <= i <= count,
                values@ == signs(stream@, count as nat).subrange(0, i as int),
            decreases count - i,
        {
            let value: i8 = if stream[4 * i + 3] >= 128 {
                1
            } else {
                -1
            };
            values.push(value);
            i += 1;
        }
        assert(values@ == signs(stream@, count as nat));
        Pattern { low_bin: low, values }
    }

    /// The pattern whose generator is seeded with `seed`.
    pub fn from_seed(seed: [u8; 32]) -> (pattern: Pattern)
        ensures
            pattern.low_bin == band_low(),
            pattern.values@ == seeded_values(seed@),
            pattern.low_bin == 55,
            pattern.values@.len() == 287,
            forall|i: int|
                0 <= i < 287 ==> #[trigger] pattern.values@[i] == if chacha8_keystream(
                    seed@,
                    1148,
                )[4 * i + 3] >= 128 {
                    1i8
                } else {
                    -1i8
                },
    {
        let (low, high) = band();
        let stream = chacha8_fill(seed, 4 * (high - low + 1));
        Pattern::from_keystream(stream.as_slice())
    }

    /// From the key and nothing else. Deriving through a domain string rather than using the
    /// key directly keeps this sequence unrelated to anything else the same key ever seeds.
    pub fn for_key(key: &[u8; 32]) -> (pattern: Pattern)
        ensures
            pattern.low_bin == band_low(),
            pattern.values@ == key_values(key@),
            pattern.low_bin == 55,
            pattern.values@.len() == 287,
            forall|i: int|
                0 <= i < 287 ==> #[trigger] pattern.values@[i] == if chacha8_keystream(
                    blake3_digest(
                        seq![17u8, 0u8, 0u8, 0u8, 0u8, 0u8, 0u8, 0u8] + seq![
            0x65u8, 0x76u8, 0x70u8, 0x2du8, 0x76u8, 0x6fu8, 0x69u8, 0x63u8, 0x65u8, 0x2fu8,
            0x6du8, 0x61u8, 0x72u8, 0x6bu8, 0x2fu8, 0x76u8, 0x31u8,
        ] + seq![32u8, 0u8, 0u8, 0u8, 0u8, 0u8, 0u8, 0u8] + key@,
                    ),
                    1148,
                )[4 * i + 3] >= 128 {
                    1i8
                } else {
                    -1i8
                },
    {
        let mut message: Vec<u8> = Vec::new();
        write_blob(&mut message, DOMAIN.as_bytes());
        write_blob(&mut message, key.as_slice());
        assert(message@ == key_message(key@));
        proof {
            lemma_key_hash_input(key@);
        }
        let seed = blake3_hash(message.as_slice());
        Pattern::from_seed(seed)
    }

    pub fn len(&self) -> (len: usize)
        ensures
            len == self.values@.len(),
    {
        self.values.len()
    }

    pub fn is_empty(&self) -> (empty: bool)
        ensures
            empty <==> self.values@.len() == 0,
    {
        self.values.len() == 0
    }
}

/// Every pattern the generator gives has one value per carrying bin, and each value is `1` or
/// `-1`: the mark only ever pushes a bin up or down by the same amount.
pub proof fn lemma_values_are_signs(seed: Seq<u8>)
    ensures
        seeded_values(seed).len() == band_len(),
        forall|i: int|
            0 <= i < band_len() ==> #[trigger] seeded_values(seed)[i] == 1
                || seeded_values(seed)[i] == -1,
{
}

/// The byte lengths of the two domain strings.
proof fn lemma_domain_lengths()
    ensures
        DOMAIN.spec_bytes().len() == 17,
        DECOY_DOMAIN.spec_bytes().len() == 23,
{
    broadcast use vstd::string::group_string_axioms;

    reveal_strlit("evp-voice/mark/v1");
    reveal_strlit("evp-voice/mark/decoy/v1");
    assert(vstd::string::is_ascii(DOMAIN));
    assert(vstd::string::is_ascii(DECOY_DOMAIN));
}

/// No key is ever hashed into the bytes a decoy is hashed from, so no key's pattern can be
/// seeded as one of the decoys is.
pub proof fn lemma_keys_and_decoys_are_hashed_apart(key: Seq<u8>, index: u64)
    requires
        key.len() == 32,
    ensures
        key_message(key) != decoy_message(index),
{
    lemma_domain_lengths();
    lemma_auto_spec_u64_to_from_le_bytes();
    assert(key_message(key).len() == 65);
    assert(decoy_message(index).len() == 39);
}

/// Two different keys are hashed from two different inputs.
pub proof fn lemma_keys_are_hashed_apart(first: Seq<u8>, second: Seq<u8>)
    requires
        first.len() == 32,
        second.len() == 32,
        first != second,
    ensures
        key_message(first) != key_message(second),
{
    lemma_domain_lengths();
    lemma_auto_spec_u64_to_from_le_bytes();
    if key_message(first) == key_message(second) {
        assert(key_message(first).subrange(33, 65) == first);
        assert(key_message(second).subrange(33, 65) == second);
    }
}

/// Two decoys with different indices are hashed from two different inputs.
pub proof fn lemma_decoys_are_hashed_apart(first: u64, second: u64)
    requires
        first != second,
    ensures
        decoy_message(first) != decoy_message(second),
{
    lemma_domain_lengths();
    lemma_auto_spec_u64_to_from_le_bytes();
    if decoy_message(first) == decoy_message(second) {
        assert(decoy_message(first).subrange(31, 39) == spec_u64_to_le_bytes(first));
        assert(decoy_message(second).subrange(31, 39) == spec_u64_to_le_bytes(second));
    }
}

/// The little-endian encoding of a number below 256 is that number followed by seven zeros.
proof fn lemma_small_le_bytes(x: u64)
    requires
        x < 256,
    ensures
        spec_u64_to_le_bytes(x) == seq![x as u8, 0u8, 0u8, 0u8, 0u8, 0u8, 0u8, 0u8],
{
    spec_u64_to_le_bytes_to_open(x);
    assert((x & 0xff) as u8 == x as u8 && ((x >> 8) & 0xff) as u8 == 0u8 && ((x >> 16) & 0xff) as u8
        == 0u8 && ((x >> 24) & 0xff) as u8 == 0u8 && ((x >> 32) & 0xff) as u8 == 0u8 && ((x >> 40)
        & 0xff) as u8 == 0u8 && ((x >> 48) & 0xff) as u8 == 0u8 && ((x >> 56) & 0xff) as u8 == 0u8)
        by (bit_vector)
        requires
            x < 256,
    ;
    assert(spec_u64_to_le_bytes(x) =~= seq![x as u8, 0u8, 0u8, 0u8, 0u8, 0u8, 0u8, 0u8]);
}

/// The bytes of the two domain strings.
proof fn lemma_domain_bytes()
    ensures
        DOMAIN.spec_bytes() == seq![
            0x65u8, 0x76u8, 0x70u8, 0x2du8, 0x76u8, 0x6fu8, 0x69u8, 0x63u8, 0x65u8, 0x2fu8,
            0x6du8, 0x61u8, 0x72u8, 0x6bu8, 0x2fu8, 0x76u8, 0x31u8,
        ],
        DECOY_DOMAIN.spec_bytes() == seq![
            0x65u8, 0x76u8, 0x70u8, 0x2du8, 0x76u8, 0x6fu8, 0x69u8, 0x63u8, 0x65u8, 0x2fu8,
            0x6du8, 0x61u8, 0x72u8, 0x6bu8, 0x2fu8, 0x64u8, 0x65u8, 0x63u8, 0x6fu8, 0x79u8,
            0x2fu8, 0x76u8, 0x31u8,
        ],
{
    broadcast use vstd::string::group_string_axioms;

    reveal_strlit("evp-voice/mark/v1");
    reveal_strlit("evp-voice/mark/decoy/v1");
    assert(vstd::string::is_ascii(DOMAIN));
    assert(vstd::string::is_ascii(DECOY_DOMAIN));
    assert(DOMAIN.spec_bytes() =~= seq![
            0x65u8, 0x76u8, 0x70u8, 0x2du8, 0x76u8, 0x6fu8, 0x69u8, 0x63u8, 0x65u8, 0x2fu8,
            0x6du8, 0x61u8, 0x72u8, 0x6bu8, 0x2fu8, 0x76u8, 0x31u8,
        ]);
    assert(DECOY_DOMAIN.spec_bytes() =~= seq![
            0x65u8, 0x76u8, 0x70u8, 0x2du8, 0x76u8, 0x6fu8, 0x69u8, 0x63u8, 0x65u8, 0x2fu8,
            0x6du8, 0x61u8, 0x72u8, 0x6bu8, 0x2fu8, 0x64u8, 0x65u8, 0x63u8, 0x6fu8, 0x79u8,
            0x2fu8, 0x76u8, 0x31u8,
        ]);
}

/// The bytes hashed to seed the pattern of a 32-byte key are always the same layout, whatever
/// the key holds: the length 17 as a little-endian `u64`, the 17 bytes of
/// `evp-voice/mark/v1`, the length 32 as a little-endian `u64`, then the 32 key bytes.
pub proof fn lemma_key_hash_input(key: Seq<u8>)
    requires
        key.len() == 32,
    ensures
        key_message(key) == seq![17u8, 0u8, 0u8, 0u8, 0u8, 0u8, 0u8, 0u8] + seq![
            0x65u8, 0x76u8, 0x70u8, 0x2du8, 0x76u8, 0x6fu8, 0x69u8, 0x63u8, 0x65u8, 0x2fu8,
            0x6du8, 0x61u8, 0x72u8, 0x6bu8, 0x2fu8, 0x76u8, 0x31u8,
        ] + seq![32u8, 0u8, 0u8, 0u8, 0u8, 0u8, 0u8, 0u8] + key,
        key_message(key).len() == 65,
        key_message(key).subrange(33, 65) == key,
{
    lemma_domain_bytes();
    lemma_small_le_bytes(17);
    lemma_small_le_bytes(32);
    assert(key_message(key) =~= seq![17u8, 0u8, 0u8, 0u8, 0u8, 0u8, 0u8, 0u8] + seq![
            0x65u8, 0x76u8, 0x70u8, 0x2du8, 0x76u8, 0x6fu8, 0x69u8, 0x63u8, 0x65u8, 0x2fu8,
            0x6du8, 0x61u8, 0x72u8, 0x6bu8, 0x2fu8, 0x76u8, 0x31u8,
        ] + seq![32u8, 0u8, 0u8, 0u8, 0u8, 0u8, 0u8, 0u8] + key);
}

/// The bytes hashed to seed decoy `index` are always the same layout: the length 23 as a
/// little-endian `u64`, the 23 bytes of `evp-voice/mark/decoy/v1`, then the index as a
/// little-endian `u64`.
pub proof fn lemma_decoy_hash_input(index: u64)
    ensures
        decoy_message(index) == seq![23u8, 0u8, 0u8, 0u8, 0u8, 0u8, 0u8, 0u8] + seq![
            0x65u8, 0x76u8, 0x70u8, 0x2du8, 0x76u8, 0x6fu8, 0x69u8, 0x63u8, 0x65u8, 0x2fu8,
            0x6du8, 0x61u8, 0x72u8, 0x6bu8, 0x2fu8, 0x64u8, 0x65u8, 0x63u8, 0x6fu8, 0x79u8,
            0x2fu8, 0x76u8, 0x31u8,
        ] + spec_u64_to_le_bytes(index),
        decoy_message(index).len() == 39,
{
    lemma_domain_bytes();
    lemma_small_le_bytes(23);
    lemma_auto_spec_u64_to_from_le_bytes();
    assert(decoy_message(index) =~= seq![23u8, 0u8, 0u8, 0u8, 0u8, 0u8, 0u8, 0u8] + seq![
            0x65u8, 0x76u8, 0x70u8, 0x2du8, 0x76u8, 0x6fu8, 0x69u8, 0x63u8, 0x65u8, 0x2fu8,
            0x6du8, 0x61u8, 0x72u8, 0x6bu8, 0x2fu8, 0x64u8, 0x65u8, 0x63u8, 0x6fu8, 0x79u8,
            0x2fu8, 0x76u8, 0x31u8,
        ] + spec_u64_to_le_bytes(index));
}

/// The pattern of a 32-byte key, value by value: one sign per 32-bit word of the ChaCha8
/// keystream seeded with the BLAKE3 digest of the fixed 65-byte layout of the key, positive
/// when the word's top bit is set, for each of the 287 carrying bins.
pub proof fn lemma_key_values(key: Seq<u8>)
    requires
        key.len() == 32,
    ensures
        key_values(key).len() == 287,
        forall|i: int|
            0 <= i < 287 ==> #[trigger] key_values(key)[i] == if chacha8_keystream(
                blake3_digest(seq![17u8, 0u8, 0u8, 0u8, 0u8, 0u8, 0u8, 0u8] + seq![
            0x65u8, 0x76u8, 0x70u8, 0x2du8, 0x76u8, 0x6fu8, 0x69u8, 0x63u8, 0x65u8, 0x2fu8,
            0x6du8, 0x61u8, 0x72u8, 0x6bu8, 0x2fu8, 0x76u8, 0x31u8,
        ] + seq![32u8, 0u8, 0u8, 0u8, 0u8, 0u8, 0u8, 0u8] + key),
                1148,
            )[4 * i + 3] >= 128 {
                1i8
            } else {
                -1i8
            },
{
    lemma_key_hash_input(key);
}

/// The values of decoy `index`, value by value: one sign per 32-bit word of the ChaCha8
/// keystream seeded with the BLAKE3 digest of the fixed 39-byte layout of the index.
pub proof fn lemma_decoy_values(index: u64)
    ensures
        decoy_values(index as nat).len() == 287,
        forall|i: int|
            0 <= i < 287 ==> #[trigger] decoy_values(index as nat)[i] == if chacha8_keystream(
                blake3_digest(
                    seq![23u8, 0u8, 0u8, 0u8, 0u8, 0u8, 0u8, 0u8] + seq![
            0x65u8, 0x76u8, 0x70u8, 0x2du8, 0x76u8, 0x6fu8, 0x69u8, 0x63u8, 0x65u8, 0x2fu8,
            0x6du8, 0x61u8, 0x72u8, 0x6bu8, 0x2fu8, 0x64u8, 0x65u8, 0x63u8, 0x6fu8, 0x79u8,
            0x2fu8, 0x76u8, 0x31u8,
        ] + spec_u64_to_le_bytes(
                        index,
                    ),
                ),
                1148,
            )[4 * i + 3] >= 128 {
                1i8
            } else {
                -1i8
            },
{
    lemma_decoy_hash_input(index);
}

/// Patterns that are definitely not ours, for judging a file against itself.
///
/// A signal with a lot of spectral structure correlates strongly with *any* fixed pattern, and
/// by the same amount every time. So the file is judged against itself: the decoys see exactly
/// the same structure, and what counts is whether ours stands out from them. They do not depend
/// on the key, so they are the same reference set for everyone, which is what makes two
/// detectors agree.
pub fn decoys(count: usize) -> (patterns: Vec<Pattern>)
    ensures
        patterns@.len() == count,
        forall|i: int|
            0 <= i < count ==> (#[trigger] patterns@[i]).low_bin == band_low()
                && patterns@[i].values@ == decoy_values(i as nat),
        forall|i: int|
            0 <= i < count ==> (#[trigger] patterns@[i]).low_bin == 55
                && patterns@[i].values@.len() == 287,
        forall|i: int, j: int|
            0 <= i < count && 0 <= j < 287 ==> #[trigger] patterns@[i].values@[j] == if
                chacha8_keystream(
                blake3_digest(
                    seq![23u8, 0u8, 0u8, 0u8, 0u8, 0u8, 0u8, 0u8] + seq![
                        0x65u8, 0x76u8, 0x70u8, 0x2du8, 0x76u8, 0x6fu8, 0x69u8, 0x63u8, 0x65u8,
                        0x2fu8, 0x6du8, 0x61u8, 0x72u8, 0x6bu8, 0x2fu8, 0x64u8, 0x65u8, 0x63u8,
                        0x6fu8, 0x79u8, 0x2fu8, 0x76u8, 0x31u8,
                    ] + spec_u64_to_le_bytes(
                        i as u64,
                    ),
                ),
                1148,
            )[4 * j + 3] >= 128 {
                1i8
            } else {
                -1i8
            },
{
    let mut patterns: Vec<Pattern> = Vec::new();
    let mut index: usize = 0;
    while index < count
        invariant
            0 <= index <= count,
            patterns@.len() == index,
            forall|i: int|
                0 <= i < index ==> (#[trigger] patterns@[i]).low_bin == band_low()
                    && patterns@[i].values@ == decoy_values(i as nat),
        decreases count - index,
    {
        let mut message: Vec<u8> = Vec::new();
        write_blob(&mut message, DECOY_DOMAIN.as_bytes());
        let position = u64_to_le_bytes(index as u64);
        let mut k: usize = 0;
        while k < position.len()
            invariant
                position@ == spec_u64_to_le_bytes(index as u64),
                0 <= k <= position@.len(),
                message@ == blob(DECOY_DOMAIN.spec_bytes()) + position@.subrange(0, k as int),
            decreases position@.len() - k,
        {
            message.push(position[k]);
            k += 1;
        }
        assert(position@.subrange(0, position@.len() as int) == position@);
        assert(message@ == decoy_message(index as u64));
        proof {
            lemma_decoy_hash_input(index as u64);
        }
        let seed = blake3_hash(message.as_slice());
        patterns.push(Pattern::from_seed(seed));
        index += 1;
    }
    assert forall|i: int, j: int| 0 <= i < count && 0 <= j < 287 implies #[trigger] patterns@[
        i
    ].values@[j] == if chacha8_keystream(
        blake3_digest(
            seq![23u8, 0u8, 0u8, 0u8, 0u8, 0u8, 0u8, 0u8] + seq![
                        0x65u8, 0x76u8, 0x70u8, 0x2du8, 0x76u8, 0x6fu8, 0x69u8, 0x63u8, 0x65u8,
                        0x2fu8, 0x6du8, 0x61u8, 0x72u8, 0x6bu8, 0x2fu8, 0x64u8, 0x65u8, 0x63u8,
                        0x6fu8, 0x79u8, 0x2fu8, 0x76u8, 0x31u8,
                    ] + spec_u64_to_le_bytes(i as u64),
        ),
        1148,
    )[4 * j + 3] >= 128 {
        1i8
    } else {
        -1i8
    } by {
        lemma_decoy_hash_input(i as u64);
    }
    patterns
}

} // verus!
