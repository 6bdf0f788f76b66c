//! Classifier, tempo-detection, stretch and quantizer behaviour on
//! synthesized audio.

use tappr::buffer::RawAudioBuffer;
use tappr::classifier::{AudioClassifier, ContentType};
use tappr::quantize::Quantizer;
use rand::Rng;
use tappr::stretch::{deinterleave, interleave, stretch_plan};

fn q15(x: f32) -> i32 {
    (x * 32768.0) as i32
}

fn q15_vec(xs: &[f32]) -> Vec<i32> {
    xs.iter().map(|&x| q15(x.clamp(-1.0, 1.0))).collect()
}

fn create_test_audio(samples: Vec<f32>) -> RawAudioBuffer {
    RawAudioBuffer::new(q15_vec(&samples), 48000, 1)
}

#[test]
fn test_silence_detection() {
    let classifier = AudioClassifier::new();

    // Near-silent audio
    let silent = create_test_audio(vec![0.001; 48000]);
    let result = classifier.classify(&silent);

    assert_eq!(result.content_type, ContentType::Silence);
    // Silence decisions come with at least 0.85 confidence.
    assert!(result.confidence_milli >= 850);
}

#[test]
fn test_classify_tone() {
    let classifier = AudioClassifier::new();

    // Generate a pure sine wave (very tonal = music-like)
    let samples: Vec<f32> = (0..48000)
        .map(|i| (440.0 * 2.0 * std::f32::consts::PI * i as f32 / 48000.0).sin() * 0.5)
        .collect();
    let tonal = create_test_audio(samples);
    let result = classifier.classify(&tonal);

    // Pure tone should be classified as music (tonal content)
    assert!(
        result.content_type == ContentType::Music || result.content_type == ContentType::Unknown,
        "Expected Music or Unknown, got {:?}",
        result.content_type
    );
}

#[test]
fn test_classify_noise() {
    let classifier = AudioClassifier::new();

    // Generate noise-like content with high ZCR variance
    let mut rng = rand::thread_rng();
    let samples: Vec<f32> = (0..48000).map(|_| rng.gen_range(-0.3..0.3)).collect();
    let noise = create_test_audio(samples);
    let result = classifier.classify(&noise);

    // Noise should likely be classified as speech or unknown (not music)
    assert!(
        result.content_type != ContentType::Silence,
        "Noise should not be classified as silence"
    );
}

#[test]
fn test_quantizer_fixed_bpm() {
    let quantizer = Quantizer::new(70_000, 170_000);

    // Create a simple 10-second buffer
    let sample_rate = 48000;
    let channels = 2;
    let duration_secs = 10.0;
    let num_samples = (duration_secs * sample_rate as f32 * channels as f32) as usize;

    // Generate a simple sine wave
    let samples: Vec<f32> = (0..num_samples)
        .map(|i| {
            let t = i as f32 / sample_rate as f32;
            (440.0 * 2.0 * std::f32::consts::PI * t).sin() * 0.5
        })
        .collect();

    let raw = RawAudioBuffer::new(q15_vec(&samples), sample_rate, channels);

    // Quantize with fixed 120 BPM: detect, stretch, then cut.
    let est = quantizer.detect_bpm(&raw, 70_000, 170_000);
    let input_frames = num_samples / 2;
    let plan = stretch_plan(est.bpm_milli, 120_000, input_frames);

    let processed: Vec<f32> = if plan.skip {
        samples
    } else {
        let mut left: Vec<f32> = Vec::with_capacity(input_frames);
        let mut right: Vec<f32> = Vec::with_capacity(input_frames);
        for frame in samples.chunks(2) {
            left.push(frame[0]);
            right.push(frame[1]);
        }
        let mut stretcher = ssstretch::Stretch::new();
        stretcher.preset_default(2, sample_rate as f32);
        let inputs = vec![left, right];
        let mut outputs = vec![Vec::new(), Vec::new()];
        stretcher.process_vec(
            &inputs,
            input_frames as i32,
            &mut outputs,
            plan.output_frames as i32,
        );
        let mut interleaved = Vec::with_capacity(plan.output_frames as usize * 2);
        for k in 0..plan.output_frames as usize {
            interleaved.push(outputs[0][k]);
            interleaved.push(outputs[1][k]);
        }
        interleaved
    };

    let processed_raw = RawAudioBuffer::new(q15_vec(&processed), sample_rate, channels);
    let result = quantizer.quantize_stretched(processed_raw, est.bpm_milli, 120_000, 2, 4);

    assert!(result.is_ok());
    let loop_buffer = result.unwrap();

    assert_eq!(loop_buffer.loop_info.bpm_milli, 120_000);
    assert!(loop_buffer.loop_info.time_stretched); // Fixed BPM triggers time stretch
    assert_eq!(loop_buffer.loop_info.bars, 2);
    assert_eq!(loop_buffer.loop_info.beats_per_bar, 4);

    // 2 bars * 4 beats/bar = 8 beats at 120 BPM = 4 seconds = 192000 frames
    let expected_frames = (4.0 * sample_rate as f32) as usize;
    assert_eq!(loop_buffer.loop_info.duration_samples, expected_frames);
}

#[test]
fn test_bpm_detection_click_track() {
    let quantizer = Quantizer::new(60_000, 180_000);

    // Generate a click track at 120 BPM (0.5s between clicks)
    let sample_rate = 48000;
    let channels = 2;
    let duration_secs = 8.0;
    let num_samples = (duration_secs * sample_rate as f32 * channels as f32) as usize;

    let click_interval_samples = (0.5 * sample_rate as f32) as usize * channels as usize;
    let click_length = 100 * channels as usize;

    let mut samples = vec![0.0f32; num_samples];

    // Add clicks
    let mut pos = 0;
    while pos < num_samples - click_length {
        for i in 0..click_length {
            samples[pos + i] = 0.8;
        }
        pos += click_interval_samples;
    }

    let raw = RawAudioBuffer::new(q15_vec(&samples), sample_rate, channels);

    // Detect BPM
    let estimate = quantizer.detect_bpm(&raw, 60_000, 180_000);

    // Should be close to 120 BPM
    let bpm = estimate.bpm_milli as f32 / 1000.0;
    assert!(
        (bpm - 120.0).abs() < 5.0,
        "Expected BPM ~120, got {}",
        bpm
    );
    let confidence = estimate.confidence_milli as f32 / 1000.0;
    assert!(
        confidence > 0.3,
        "Expected confidence > 0.3, got {}",
        confidence
    );
}

#[test]
fn test_deinterleave_interleave_roundtrip() {
    let original = q15_vec(&[0.1, 0.2, 0.3, 0.4, 0.5, 0.6]);

    let (left, right) = deinterleave(&original);
    assert_eq!(left, q15_vec(&[0.1, 0.3, 0.5]));
    assert_eq!(right, q15_vec(&[0.2, 0.4, 0.6]));

    let roundtrip = interleave(&left, &right);
    assert_eq!(roundtrip, original);
}

#[test]
fn test_stretch_ratio_calculation() {
    // 90 BPM -> 120 BPM: ratio = 90/120 = 0.75 (speed up, shorter output)
    let ratio: f32 = 90.0 / 120.0;
    assert!((ratio - 0.75).abs() < 0.001);

    // 150 BPM -> 120 BPM: ratio = 150/120 = 1.25 (slow down, longer output)
    let ratio: f32 = 150.0 / 120.0;
    assert!((ratio - 1.25).abs() < 0.001);
}

#[test]
fn test_stretch_skip_near_unity() {
    let samples = vec![0.5f32; 1000];
    let frames = samples.len() / 2;

    // Stretch ratio of 1.0 should leave the length unchanged
    let plan = stretch_plan(120_000, 120_000, frames);
    assert!(plan.skip);
    assert_eq!(plan.output_frames as usize, frames);
}

#[test]
fn test_stretch_plan_rounds_output() {
    // 90 -> 120 BPM compresses to three quarters of the length.
    let plan = stretch_plan(90_000, 120_000, 1000);
    assert!(!plan.skip);
    assert_eq!(plan.output_frames, 750);
    assert!(!plan.quality_warning);

    // Beyond a ratio of 1.5 the quality warning trips.
    let plan = stretch_plan(190_000, 120_000, 1000);
    assert!(plan.quality_warning);
}

#[test]
fn test_quantize_rejects_short_audio() {
    let quantizer = Quantizer::new(70_000, 170_000);
    // One second of audio cannot hold 8 beats at 120 BPM (4 seconds).
    let samples = vec![0.1f32; 96000];
    let raw = RawAudioBuffer::new(q15_vec(&samples), 48000, 2);
    let result = quantizer.quantize_stretched(raw, 120_000, 120_000, 2, 4);
    assert!(matches!(
        result,
        Err(tappr::errors::AudioError::AudioTooShort(_))
    ));
}

#[test]
fn test_classifier_decision_rule_sine_level() {
    // A healthy constant-level tone never counts as silence.
    let samples: Vec<f32> = (0..48000)
        .map(|i| (220.0 * 2.0 * std::f32::consts::PI * i as f32 / 48000.0).sin() * 0.3)
        .collect();
    let audio = create_test_audio(samples);
    let result = AudioClassifier::new().classify(&audio);
    assert_ne!(result.content_type, ContentType::Silence);
    assert_ne!(result.content_type, ContentType::Speech);
}
