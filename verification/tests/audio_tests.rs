//! Capture buffer hand-off and pitch estimation on synthetic signals.

use onkey::buffer::CaptureBuffer;
use onkey::pitch::PitchDetector;

/// A pure sine at `freq` Hz, `len` samples at `rate` Hz, scaled to the
/// library's fixed-point sample range.
fn sine(freq: f32, rate: u32, len: usize, amplitude: f32) -> Vec<i32> {
    (0..len)
        .map(|i| {
            let t = i as f32 / rate as f32;
            let x = amplitude * (2.0 * std::f32::consts::PI * freq * t).sin();
            (x * 16384.0) as i32
        })
        .collect()
}

#[test]
fn test_buffer_bounded_retention() {
    // Push more than the retention ceiling worth of samples; the length
    // never exceeds the ceiling.
    let mut buffer = CaptureBuffer::new(44100);
    let ceiling = 22050;
    let frame: Vec<i32> = vec![100; 4410];
    for _ in 0..12 {
        buffer.push(&frame, 1);
        assert!(buffer.len() <= ceiling);
    }
    assert_eq!(buffer.len(), ceiling);
}

#[test]
fn test_buffer_read_twice_returns_nothing() {
    let mut buffer = CaptureBuffer::new(44100);
    buffer.push(&vec![1, 2, 3, 4], 1);
    let first = buffer.read(4);
    assert_eq!(first.len(), 4);
    let second = buffer.read(4);
    assert_eq!(second.len(), 0);
}

#[test]
fn test_buffer_stereo_downmix() {
    // A stereo frame of (1.0, 1.0) yields one mono sample of 1.0.
    let mut buffer = CaptureBuffer::new(44100);
    buffer.push(&vec![16384, 16384], 2);
    let out = buffer.read(4);
    assert_eq!(out, vec![16384]);
}

#[test]
fn test_buffer_downmix_averages_channels() {
    let mut buffer = CaptureBuffer::new(44100);
    buffer.push(&vec![1000, 3000, -500, -1500], 2);
    let out = buffer.read(4);
    assert_eq!(out, vec![2000, -1000]);
}

#[test]
fn test_buffer_read_returns_most_recent_window() {
    let mut buffer = CaptureBuffer::new(44100);
    buffer.push(&vec![1, 2, 3, 4, 5, 6], 1);
    let out = buffer.read(3);
    assert_eq!(out, vec![4, 5, 6]);
}

#[test]
fn test_buffer_fresh_flag() {
    let mut buffer = CaptureBuffer::new(44100);
    assert!(!buffer.has_fresh_data());
    buffer.push(&Vec::new(), 2);
    assert!(buffer.has_fresh_data());
    assert_eq!(buffer.read(8).len(), 0);
    assert!(!buffer.has_fresh_data());
}

#[test]
fn test_detect_sine_440() {
    let detector = PitchDetector::new(44100);
    let samples = sine(440.0, 44100, 2048, 0.8);
    let result = detector.detect(&samples).expect("a pure sine must be detected");
    // Within 1 Hz of 440 Hz, with high confidence.
    assert!(result.frequency > 439000 && result.frequency < 441000);
    assert!(result.confidence > 800);
}

#[test]
fn test_detect_silence_is_none() {
    let detector = PitchDetector::new(44100);
    let samples = vec![0; 2048];
    assert!(detector.detect(&samples).is_none());
}

#[test]
fn test_detect_window_length_stability() {
    // Doubling the window does not change the detected frequency by more
    // than rounding error.
    let detector = PitchDetector::new(44100);
    let small = sine(440.0, 44100, 2048, 0.8);
    let large = sine(440.0, 44100, 4096, 0.8);
    let f_small = detector.detect(&small).expect("detected").frequency as i64;
    let f_large = detector.detect(&large).expect("detected").frequency as i64;
    assert!((f_small - f_large).abs() < 100);
}

#[test]
fn test_detect_low_note() {
    // F3 at about 174.6 Hz needs a longer window.
    let detector = PitchDetector::new(44100);
    let samples = sine(174.614, 44100, 4096, 0.8);
    let result = detector.detect(&samples).expect("detected");
    assert!(result.frequency > 173600 && result.frequency < 175600);
}

#[test]
fn test_detect_short_window_is_none() {
    let detector = PitchDetector::new(44100);
    let samples = sine(440.0, 44100, 3, 0.8);
    assert!(detector.detect(&samples).is_none());
}

#[test]
fn test_detect_threshold_is_configurable() {
    let detector = PitchDetector::new(44100).with_threshold(500);
    let samples = sine(440.0, 44100, 2048, 0.8);
    let result = detector.detect(&samples).expect("detected");
    assert!(result.frequency > 439000 && result.frequency < 441000);
}

#[test]
fn test_reference_tone_sample_count() {
    let tone = onkey::reference::ReferenceTone::new(44100);
    assert_eq!(tone.sample_rate(), 44100);
    assert_eq!(tone.sample_count(2000), 88200);
}
