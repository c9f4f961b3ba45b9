//! The streaming marker's delay line: the offline path, one window late, whatever the blocks.

use evp_mark::pattern::Pattern;
use evp_mark::stft::{HOP, SAMPLE_RATE, WINDOW};
use evp_mark::{MarkError, Marker};
use rand::{Rng, SeedableRng};
use rand_chacha::ChaCha8Rng;

const KEY: [u8; 32] = [7u8; 32];

fn bed(seconds: f32) -> Vec<f32> {
    let mut rng = ChaCha8Rng::seed_from_u64(31);
    let len = (SAMPLE_RATE as f32 * seconds) as usize;
    let mut previous = 0.0f32;
    (0..len)
        .map(|_| {
            let white: f32 = rng.random_range(-1.0..1.0);
            previous = 0.98 * previous + 0.02 * white;
            (previous * 8.0).clamp(-1.0, 1.0) * 0.2
        })
        .collect()
}

/// The block size the app's 50 ms render loop actually uses at 48 kHz.
const RENDER_BLOCK: usize = 2_400;

/// Runs one block through the delay line. Each frame is "finished" by handing back its first
/// hop unchanged, so the stream that comes out is the input itself, one window late.
fn pass<T: Copy + Default>(marker: &mut Marker<T>, block: &mut [T]) {
    marker.accept(block);
    while let Some(frame) = marker.frame() {
        assert_eq!(frame.len(), WINDOW);
        marker.advance(&frame[..HOP]);
    }
    assert_eq!(marker.pending(), block.len());
    marker.emit(block);
    assert_eq!(marker.pending(), 0);
}

fn stream(samples: &[f32]) -> Vec<f32> {
    let mut marker = Marker::new(SAMPLE_RATE, &KEY).unwrap();
    let mut out = Vec::with_capacity(samples.len());
    for chunk in samples.chunks(RENDER_BLOCK) {
        let mut block = chunk.to_vec();
        pass(&mut marker, &mut block);
        out.extend_from_slice(&block);
    }
    out
}

#[test]
fn the_stream_gives_back_exactly_what_it_was_given_the_length_of() {
    let input = bed(3.0);
    assert_eq!(stream(&input).len(), input.len());
}

#[test]
fn a_rate_it_does_not_know_is_refused() {
    assert!(Marker::<f32>::new(44_100, &KEY).is_err());
}

#[test]
fn the_refusal_names_both_rates() {
    assert_eq!(
        Marker::<f32>::new(44_100, &KEY).err(),
        Some(MarkError::SampleRate { expected: SAMPLE_RATE, actual: 44_100 })
    );
}

#[test]
fn the_declared_latency_is_one_window() {
    assert_eq!(Marker::<f32>::LATENCY_SAMPLES, 2048);
    assert_eq!(Marker::<f32>::LATENCY_SAMPLES, WINDOW);
}

#[test]
fn the_stream_marks_as_many_frames_as_the_offline_transform_cuts() {
    for len in [0usize, 100, WINDOW - 1, WINDOW, WINDOW + HOP - 1, WINDOW + HOP, 48_000] {
        let input = vec![0u8; len];
        let mut marker = Marker::<u8>::new(SAMPLE_RATE, &KEY).unwrap();
        marker.accept(&input);
        let mut seen = 0usize;
        while let Some(frame) = marker.frame() {
            marker.advance(&frame[..HOP]);
            seen += 1;
        }
        assert_eq!(seen, evp_mark::stft::Stft::frames(len), "len {len}");
        let mut block = input.clone();
        marker.emit(&mut block);
    }
}

#[test]
fn render_blocks_come_out_one_window_late_without_drops_or_padding() {
    let input = bed(3.0);
    let out = stream(&input);
    assert!(out[..WINDOW].iter().all(|sample| *sample == 0.0));
    assert_eq!(&out[WINDOW..], &input[..input.len() - WINDOW]);
}

#[test]
fn odd_block_sizes_come_out_one_window_late() {
    let input: Vec<i64> = (1..=40_000).collect();
    let mut marker = Marker::<i64>::new(SAMPLE_RATE, &KEY).unwrap();
    let mut out = Vec::with_capacity(input.len());
    let mut cursor = 0usize;
    for size in [37usize, 1024, 5, 2048, 511, 700, 0, 1].iter().cycle() {
        if cursor >= input.len() {
            break;
        }
        let end = (cursor + size).min(input.len());
        let mut block = input[cursor..end].to_vec();
        pass(&mut marker, &mut block);
        out.extend_from_slice(&block);
        cursor = end;
    }
    assert_eq!(out.len(), input.len());
    assert!(out[..WINDOW].iter().all(|sample| *sample == 0));
    assert_eq!(&out[WINDOW..], &input[..input.len() - WINDOW]);
}

#[test]
fn a_block_shorter_than_the_latency_is_all_silence() {
    let mut marker = Marker::<i32>::new(SAMPLE_RATE, &KEY).unwrap();
    let mut block = vec![5; 100];
    pass(&mut marker, &mut block);
    assert!(block.iter().all(|sample| *sample == 0));
}

#[test]
fn the_frames_are_whole_windows_a_hop_apart() {
    let input: Vec<u32> = (0..(WINDOW + 3 * HOP) as u32).collect();
    let mut marker = Marker::<u32>::new(SAMPLE_RATE, &KEY).unwrap();
    marker.accept(&input);
    let mut seen = 0usize;
    while let Some(frame) = marker.frame() {
        let start = seen * HOP;
        assert_eq!(frame, input[start..start + WINDOW].to_vec());
        marker.advance(&frame[..HOP]);
        seen += 1;
    }
    assert_eq!(seen, 4);
    assert_eq!(seen, evp_mark::stft::Stft::frames(input.len()));
    let mut block = input.clone();
    marker.emit(&mut block);
}

#[test]
fn the_marker_carries_the_pattern_of_its_key() {
    let marker = Marker::<f32>::new(SAMPLE_RATE, &KEY).unwrap();
    assert_eq!(marker.pattern().values, Pattern::for_key(&KEY).values);
    assert_eq!(marker.pattern().low_bin, Pattern::for_key(&KEY).low_bin);
}

/// However the same samples are cut into blocks, the same stream comes out.
#[test]
fn the_cut_into_blocks_does_not_change_the_stream() {
    let input: Vec<i32> = (1..=20_000).collect();
    let mut streams = Vec::new();
    for sizes in [vec![2_400usize], vec![1, 0, 513, 4_096, 7], vec![20_000], vec![511, 512, 2_047]] {
        let mut marker = Marker::<i32>::new(SAMPLE_RATE, &KEY).unwrap();
        let mut out = Vec::new();
        let mut cursor = 0usize;
        for size in sizes.iter().cycle() {
            if cursor >= input.len() {
                break;
            }
            let end = (cursor + size).min(input.len());
            let mut block = input[cursor..end].to_vec();
            pass(&mut marker, &mut block);
            out.extend_from_slice(&block);
            cursor = end;
        }
        streams.push(out);
    }
    for stream in &streams[1..] {
        assert_eq!(stream, &streams[0]);
    }
}
