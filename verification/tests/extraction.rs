use spectral_frames::audio::extract_time_range;
use spectral_frames::structs::AudioError;

fn bits_of(samples: &[f32]) -> Vec<u32> {
    samples.iter().map(|s| s.to_bits()).collect()
}

fn ramp(len: usize) -> Vec<u32> {
    let mut v: Vec<u32> = Vec::new();
    for i in 0..len {
        v.push((i as f32 / 1000.0).to_bits());
    }
    v
}

#[test]
fn full_range_returns_every_sample() {
    // 2000 samples at 1000 Hz last exactly 2000 ms.
    let samples = ramp(2000);
    let out = extract_time_range(&samples, 0, 2000, 1000).unwrap();
    assert_eq!(out, samples);
}

#[test]
fn start_at_duration_fails_with_range_beyond_audio() {
    let samples = ramp(2000);
    let r = extract_time_range(&samples, 2000, 3000, 1000);
    assert_eq!(r, Err(AudioError::RangeBeyondAudio { start_ms: 2000 }));
}

#[test]
fn start_past_duration_fails_with_range_beyond_audio() {
    let samples = ramp(441);
    // 441 samples at 44100 Hz last 10 ms.
    let r = extract_time_range(&samples, 50, 60, 44100);
    assert_eq!(r, Err(AudioError::RangeBeyondAudio { start_ms: 50 }));
}

#[test]
fn end_far_beyond_duration_truncates_to_last_sample() {
    let samples = ramp(2000);
    let out = extract_time_range(&samples, 500, 1_000_000, 1000).unwrap();
    assert_eq!(out.len(), 1500);
    assert_eq!(out.first(), samples.get(500));
    assert_eq!(out.last(), samples.last());
}

#[test]
fn indices_follow_the_sample_rate() {
    let samples = ramp(44100);
    let out = extract_time_range(&samples, 500, 600, 44100).unwrap();
    // 500 ms at 44100 Hz is sample 22050; 600 ms is sample 26460.
    assert_eq!(out.len(), 26460 - 22050);
    assert_eq!(out[0], samples[22050]);
    assert_eq!(out[out.len() - 1], samples[26459]);
}

#[test]
fn equal_start_and_end_yield_an_empty_range() {
    let samples = ramp(10);
    let out = extract_time_range(&samples, 5, 5, 1000).unwrap();
    assert!(out.is_empty());
}

#[test]
fn sample_bits_pass_through_unchanged() {
    let source = [0.25f32, -1.0, 0.5, f32::MIN_POSITIVE];
    let samples = bits_of(&source);
    // 1 ms at 2000 Hz is sample 2; the end index clamps to the 4 samples.
    let out = extract_time_range(&samples, 1, 3, 2000).unwrap();
    assert_eq!(out.len(), 2);
    assert_eq!(f32::from_bits(out[0]), 0.5);
    assert_eq!(f32::from_bits(out[1]), f32::MIN_POSITIVE);
}
