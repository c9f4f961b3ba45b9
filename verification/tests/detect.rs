use evp_mark::detect::{
    block_count, is_marked, smoothing_window, HOPS_PER_BLOCK, MIN_BLOCKS, SMOOTHING,
};
use evp_mark::stft::{HOP, SAMPLE_RATE};

#[test]
fn a_block_is_about_a_second_of_hops() {
    assert_eq!(HOPS_PER_BLOCK, 94);
    assert_eq!(HOPS_PER_BLOCK, (SAMPLE_RATE as usize).div_ceil(HOP));
}

#[test]
fn blocks_count_every_frame_once_and_the_last_block_may_be_short() {
    assert_eq!(block_count(0), 0);
    assert_eq!(block_count(1), 1);
    assert_eq!(block_count(93), 1);
    assert_eq!(block_count(94), 1);
    assert_eq!(block_count(95), 2);
    assert_eq!(block_count(282), 3);
    assert_eq!(block_count(283), 4);
    // A buffer of 49,664 samples holds exactly 94 frames: one block.
    assert_eq!(evp_mark::stft::Stft::frames(49_664), 94);
    assert_eq!(block_count(evp_mark::stft::Stft::frames(49_664)), 1);
    for frames in 0..1000usize {
        assert_eq!(block_count(frames), frames.div_ceil(HOPS_PER_BLOCK));
    }
}

#[test]
fn fewer_than_three_blocks_is_never_a_yes() {
    assert_eq!(MIN_BLOCKS, 3);
    assert!(!is_marked(0, true));
    assert!(!is_marked(2, true));
    assert!(is_marked(3, true));
    assert!(!is_marked(3, false));
    assert!(is_marked(40, true));
}

#[test]
fn the_smoothing_window_is_nine_bins_cut_off_at_the_band_edges() {
    assert_eq!(SMOOTHING, 9);
    assert_eq!(smoothing_window(0, 287, SMOOTHING), (0, 5));
    assert_eq!(smoothing_window(3, 287, SMOOTHING), (0, 8));
    assert_eq!(smoothing_window(4, 287, SMOOTHING), (0, 9));
    assert_eq!(smoothing_window(100, 287, SMOOTHING), (96, 105));
    assert_eq!(smoothing_window(286, 287, SMOOTHING), (282, 287));
    assert_eq!(smoothing_window(0, 1, SMOOTHING), (0, 1));
}
