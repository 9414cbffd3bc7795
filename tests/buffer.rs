use worker_dsp::buffer::{pcm_full_scale, wav_samples, AudioBuffer, WavSamples};

#[test]
fn new_buffer_is_empty() {
    let b: AudioBuffer<f32> = AudioBuffer::new(2, 44100);
    assert_eq!(b.samples.len(), 2);
    assert_eq!(b.frame_count(), 0);
    assert_eq!(b.sample_rate, 44100);
}

#[test]
fn appended_planes_keep_equal_lengths() {
    let mut b: AudioBuffer<f32> = AudioBuffer::new(2, 48000);
    assert!(b.append_planes(&vec![vec![0.1, 0.2], vec![0.3, 0.4]]));
    assert!(b.append_planes(&vec![vec![0.5], vec![0.6], vec![0.7]]));
    assert_eq!(b.samples, vec![vec![0.1, 0.2, 0.5], vec![0.3, 0.4, 0.6]]);
    assert_eq!(b.frame_count(), 3);
}

#[test]
fn block_missing_a_channel_is_refused() {
    let mut b: AudioBuffer<i16> = AudioBuffer::new(2, 8000);
    assert!(b.append_planes(&vec![vec![7], vec![8]]));
    assert!(!b.append_planes(&vec![vec![1, 2]]));
    assert_eq!(b.samples, vec![vec![7], vec![8]]);
    assert!(b.is_aligned());
}

#[test]
fn block_of_uneven_planes_is_refused() {
    let mut b: AudioBuffer<i16> = AudioBuffer::new(2, 8000);
    assert!(!b.append_planes(&vec![vec![1, 2], vec![3]]));
    assert_eq!(b.samples, vec![Vec::<i16>::new(), Vec::new()]);
}

#[test]
fn alignment_of_hand_built_buffers() {
    let mut b: AudioBuffer<i16> = AudioBuffer::new(2, 8000);
    assert!(b.is_aligned());
    b.samples[0].push(1);
    assert!(!b.is_aligned());
    let c = AudioBuffer { samples: vec![vec![1i16]], sample_rate: 8000, channels: 2 };
    assert!(!c.is_aligned());
}

#[test]
fn wav_sample_table() {
    assert_eq!(wav_samples(false, 16), Some(WavSamples::Int16 { divisor: 32768 }));
    assert_eq!(wav_samples(false, 24), Some(WavSamples::Int32 { divisor: 8388608 }));
    assert_eq!(wav_samples(false, 32), Some(WavSamples::Int32 { divisor: 2147483648 }));
    assert_eq!(wav_samples(true, 32), Some(WavSamples::Float));
    assert_eq!(wav_samples(false, 8), None);
}

#[test]
fn interleave_frame_by_frame() {
    let mut b: AudioBuffer<i32> = AudioBuffer::new(2, 8000);
    assert!(b.append_planes(&vec![vec![1, 2, 3], vec![10, 20, 30]]));
    assert_eq!(b.interleave_frames(0, 3), vec![1, 10, 2, 20, 3, 30]);
    assert_eq!(b.interleave_frames(1, 2), vec![2, 20]);
    assert!(b.interleave_frames(2, 2).is_empty());
}

#[test]
fn keep_frames_cuts_every_channel() {
    let mut b: AudioBuffer<i32> = AudioBuffer::new(2, 8000);
    assert!(b.append_planes(&vec![vec![1, 2, 3, 4], vec![5, 6, 7, 8]]));
    b.keep_frames(1, 3);
    assert_eq!(b.samples, vec![vec![2, 3], vec![6, 7]]);
    assert_eq!(b.frame_count(), 2);
}

#[test]
fn pcm_depths() {
    assert_eq!(pcm_full_scale(16), Some(32767));
    assert_eq!(pcm_full_scale(24), Some(8388607));
    assert_eq!(pcm_full_scale(32), Some(2147483647));
    assert_eq!(pcm_full_scale(8), None);
}

#[test]
fn split_interleaved_drops_partial_frame() {
    let b: AudioBuffer<i16> = AudioBuffer::from_interleaved(&vec![1, 10, 2, 20, 3], 2, 44100);
    assert_eq!(b.samples, vec![vec![1, 2], vec![10, 20]]);
    assert_eq!(b.frame_count(), 2);
    assert_eq!(b.channels, 2);
    let m: AudioBuffer<i16> = AudioBuffer::from_interleaved(&vec![4, 5, 6], 1, 8000);
    assert_eq!(m.samples, vec![vec![4, 5, 6]]);
}
