use evp_mark::pattern::{band, decoys, Pattern, DECOY_DOMAIN, DOMAIN};
use rand::{Rng, SeedableRng};
use rand_chacha::ChaCha8Rng;

const KEY: [u8; 32] = [7u8; 32];
const OTHER: [u8; 32] = [8u8; 32];

#[test]
fn the_band_is_the_one_the_design_names() {
    let (low, high) = band();
    assert_eq!(low, 55, "1.3 kHz at 23.44 Hz a bin");
    assert_eq!(high, 341, "8 kHz at 23.44 Hz a bin");
    assert_eq!(Pattern::for_key(&KEY).len(), high - low + 1);
}

#[test]
fn the_sequence_is_plus_or_minus_one_and_nothing_else() {
    let pattern = Pattern::for_key(&KEY);
    assert!(pattern.values.iter().all(|v| *v == 1 || *v == -1));
}

#[test]
fn the_same_key_gives_the_same_sequence_and_a_different_key_does_not() {
    assert_eq!(Pattern::for_key(&KEY).values, Pattern::for_key(&KEY).values);
    assert_ne!(
        Pattern::for_key(&KEY).values,
        Pattern::for_key(&OTHER).values
    );
}

/// A biased sequence would tilt the spectrum, which is audible in a way the pattern is not.
#[test]
fn the_sequence_has_no_mean_worth_hearing() {
    let pattern = Pattern::for_key(&KEY);
    let mean: f32 =
        pattern.values.iter().map(|v| f32::from(*v)).sum::<f32>() / pattern.len() as f32;
    assert!(mean.abs() < 0.1, "mean was {mean}");
}

/// The sequence as the generator hands it out one draw at a time: a length-framed domain and
/// key hashed incrementally, then one `random::<bool>()` per carrying bin.
fn drawn(parts: &[&[u8]], framed_tail: Option<&[u8]>) -> Vec<i8> {
    let mut hasher = blake3::Hasher::new();
    for part in parts {
        hasher.update(&(part.len() as u64).to_le_bytes());
        hasher.update(part);
    }
    if let Some(tail) = framed_tail {
        hasher.update(tail);
    }
    let seed: [u8; 32] = *hasher.finalize().as_bytes();
    let (low, high) = band();
    let mut rng = ChaCha8Rng::from_seed(seed);
    (low..=high)
        .map(|_| if rng.random::<bool>() { 1 } else { -1 })
        .collect()
}

#[test]
fn the_pattern_is_the_one_the_generator_draws() {
    for key in [KEY, OTHER, [0u8; 32], evp_mark::MARK_KEY] {
        let expected = drawn(&[DOMAIN.as_bytes(), &key], None);
        let pattern = Pattern::for_key(&key);
        assert_eq!(pattern.values, expected);
        assert_eq!(pattern.low_bin, 55);
    }
}

#[test]
fn the_decoys_are_the_ones_the_generator_draws() {
    let patterns = decoys(31);
    assert_eq!(patterns.len(), 31);
    for (index, pattern) in patterns.iter().enumerate() {
        let position = (index as u64).to_le_bytes();
        let expected = drawn(&[DECOY_DOMAIN.as_bytes()], Some(&position));
        assert_eq!(pattern.values, expected, "decoy {index}");
        assert_eq!(pattern.low_bin, 55);
    }
}

#[test]
fn a_decoy_does_not_depend_on_how_many_are_asked_for() {
    let few = decoys(3);
    let many = decoys(10);
    for index in 0..3 {
        assert_eq!(few[index].values, many[index].values);
    }
    assert!(decoys(0).is_empty());
}

#[test]
fn no_decoy_is_the_pattern_of_the_key() {
    let ours = Pattern::for_key(&evp_mark::MARK_KEY);
    let patterns = decoys(31);
    for (index, decoy) in patterns.iter().enumerate() {
        assert_ne!(decoy.values, ours.values, "decoy {index}");
        for (other_index, other) in patterns.iter().enumerate().skip(index + 1) {
            assert_ne!(decoy.values, other.values, "decoys {index} and {other_index}");
        }
    }
}

#[test]
fn a_pattern_from_a_keystream_reads_the_top_bit_of_each_word() {
    let (low, high) = band();
    let count = high - low + 1;
    let mut stream = vec![0u8; 4 * count];
    for word in 0..count {
        // Only the last byte's top bit decides; the other bits are noise.
        stream[4 * word] = 0xff;
        stream[4 * word + 3] = if word % 3 == 0 { 0x80 } else { 0x7f };
    }
    let pattern = Pattern::from_keystream(&stream);
    assert_eq!(pattern.low_bin, low);
    assert!(!pattern.is_empty());
    for (word, value) in pattern.values.iter().enumerate() {
        assert_eq!(*value, if word % 3 == 0 { 1 } else { -1 }, "word {word}");
    }
}

#[test]
fn the_band_lies_inside_the_half_spectrum() {
    let (low, high) = band();
    assert!(low <= high);
    assert!(high < evp_mark::stft::BINS);
}
