//! One-shot source behaviour: exact playback length, the crossfade
//! envelope, and the equal-power law.

use tappr::buffer::{LoopBuffer, LoopInfo, CHANNELS, SAMPLE_RATE};
use tappr::playback::PlaybackQueue;
use tappr::source::OneShotSource;

fn q15(x: f32) -> i32 {
    (x * 32768.0) as i32
}

fn create_test_buffer(samples: Vec<f32>) -> LoopBuffer {
    let q: Vec<i32> = samples.iter().map(|&x| q15(x.clamp(-1.0, 1.0))).collect();
    let duration_samples = q.len() / CHANNELS as usize;
    LoopBuffer {
        samples: q,
        loop_info: LoopInfo {
            bpm_milli: 120_000,
            source_bpm_milli: 120_000,
            bpm_confidence_milli: 1000,
            time_stretched: false,
            bars: 1,
            beats_per_bar: 4,
            duration_samples,
            sample_rate: SAMPLE_RATE,
        },
    }
}

#[test]
fn test_one_shot_source_plays_once() {
    let samples = vec![0.1, 0.2, 0.3, 0.4]; // 2 stereo frames
    let expected: Vec<i32> = samples.iter().map(|&x| q15(x)).collect();
    let buffer = create_test_buffer(samples);

    // Use no fades for exact sample comparison
    let mut source = OneShotSource::with_fades(buffer, false, false);

    // Read all samples
    let mut output: Vec<i32> = Vec::new();
    while let Some(s) = source.next_sample() {
        output.push(s);
    }

    // Should play exactly once, no looping
    assert_eq!(output.len(), 4);
    assert_eq!(output, expected);

    // Next call should return None
    assert!(source.next_sample().is_none());
}

#[test]
fn test_one_shot_source_duration() {
    let samples = vec![0.0; 96000]; // 1 second at 48kHz stereo
    let buffer = create_test_buffer(samples);

    let source = OneShotSource::new(buffer);

    let duration_secs = source.total_duration_millis() as f64 / 1000.0;
    assert!((duration_secs - 1.0).abs() < 0.01);
}

#[test]
fn test_crossfade_applies() {
    // Create a 2-second buffer of constant 1.0 samples (need longer for fade regions)
    let samples = vec![1.0; 192000]; // 2 seconds at 48kHz stereo
    let buffer = create_test_buffer(samples);

    let mut source = OneShotSource::new(buffer);

    // At 120 BPM, 1 beat = 0.5s = 48000 samples (stereo)
    let expected_fade_samples = 48000;

    // First sample should be near 0 (fade in starts at 0)
    let first = source.next_sample().unwrap() as f32 / 32768.0;
    assert!(first < 0.1, "First sample should be faded in, got {}", first);

    // Skip to middle (well past fade-in, before fade-out)
    for _ in 0..(96000 - 2) {
        source.next_sample();
    }
    let middle = source.next_sample().unwrap() as f32 / 32768.0;
    assert!(
        (middle - 1.0).abs() < 0.01,
        "Middle sample should be ~1.0, got {}",
        middle
    );

    // Skip to near the end (in fade-out region)
    for _ in 0..(96000 - expected_fade_samples) {
        source.next_sample();
    }

    // Last few samples should be faded out
    let mut last = 0.0f32;
    while let Some(s) = source.next_sample() {
        last = s as f32 / 32768.0;
    }
    assert!(last < 0.1, "Last sample should be faded out, got {}", last);
}

#[test]
fn test_equal_power_crossfade() {
    // Verify equal-power property: fade_in^2 + fade_out^2 ≈ 1
    // This ensures constant perceived loudness during crossfade
    let samples = vec![1.0; 192000]; // 2 seconds
    let buffer = create_test_buffer(samples);

    let source = OneShotSource::new(buffer);

    // Check at various points in fade region
    let mut i = 0;
    while i < source.fade_samples {
        let fade_in = source.fade_in_gain(i) as f64 / 32768.0;
        // Corresponding fade-out position (mirrored)
        let fade_out_pos = source.total_samples - source.fade_samples + i;
        let fade_out = source.fade_out_gain(fade_out_pos) as f64 / 32768.0;

        // sin^2 + cos^2 = 1 for equal power
        let power_sum = fade_in * fade_in + fade_out * fade_out;
        assert!(
            (power_sum - 1.0).abs() < 0.01,
            "Equal power not maintained at position {}: {} + {} = {}",
            i,
            fade_in * fade_in,
            fade_out * fade_out,
            power_sum
        );
        i += 100;
    }
}

#[test]
fn test_beat_aligned_fade_duration() {
    // Test that fade duration is exactly 1 beat at various BPMs
    let test_cases: [(u32, f32); 3] = [
        (60_000, 1.0),         // 60 BPM = 1 second per beat
        (120_000, 0.5),        // 120 BPM = 0.5 seconds per beat
        (180_000, 1.0 / 3.0),  // 180 BPM = 0.333 seconds per beat
    ];

    for (bpm_milli, expected_secs) in test_cases {
        let samples = vec![1.0f32; 192000]; // 2 seconds
        let q: Vec<i32> = samples.iter().map(|&x| q15(x)).collect();
        let duration_samples = q.len() / CHANNELS as usize;
        let buffer = LoopBuffer {
            samples: q,
            loop_info: LoopInfo {
                bpm_milli,
                source_bpm_milli: bpm_milli,
                bpm_confidence_milli: 1000,
                time_stretched: false,
                bars: 1,
                beats_per_bar: 4,
                duration_samples,
                sample_rate: SAMPLE_RATE,
            },
        };

        let source = OneShotSource::new(buffer);

        // Expected fade samples = expected_secs * sample_rate * channels
        let expected_fade_samples = (expected_secs * SAMPLE_RATE as f32 * CHANNELS as f32) as usize;

        assert!(
            (source.fade_samples as i32 - expected_fade_samples as i32).abs() < 10,
            "At {} BPM, expected fade ~{} samples, got {}",
            bpm_milli / 1000,
            expected_fade_samples,
            source.fade_samples
        );
    }
}

#[test]
fn test_sources_emit_exact_totals_back_to_back() {
    // Three clips of 2 s, 3 s and 1 s of stereo at 48 kHz, played one
    // after another, emit exactly 6 s worth of samples and then end.
    let durations_secs = [2usize, 3, 1];
    let mut emitted = 0usize;
    for (k, secs) in durations_secs.iter().enumerate() {
        let n = secs * 48000 * 2;
        let samples = vec![0.25f32; n];
        let buffer = create_test_buffer(samples);
        let mut source = OneShotSource::with_fades(buffer, k > 0, true);
        while source.next_sample().is_some() {
            emitted += 1;
        }
        assert!(source.next_sample().is_none());
    }
    assert_eq!(emitted, 6 * 48000 * 2);
}

#[test]
fn test_playback_queue_plays_in_order() {
    // Append three clips of 2 s, 3 s and 1 s to an empty sink: the
    // FIFO plays them strictly in order, emits exactly 6 s worth of
    // samples, and ends with an empty queue.
    let mut sink = PlaybackQueue::new();
    assert!(sink.is_finished());
    sink.play(create_test_buffer(vec![0.5; 2 * 96000]));
    sink.append(create_test_buffer(vec![0.5; 3 * 96000]));
    sink.append(create_test_buffer(vec![0.5; 96000]));
    assert_eq!(sink.queue_len(), 3);
    assert!(sink.is_playing());

    let mut emitted = 0usize;
    let mut ticks = 0usize;
    while !sink.is_finished() {
        if sink.next_sample().is_some() {
            emitted += 1;
        }
        ticks += 1;
        assert!(ticks <= 7 * 96000);
    }
    assert_eq!(emitted, 6 * 96000);
    assert!(sink.next_sample().is_none());
}

#[test]
fn test_playback_queue_skip_and_pause() {
    let mut sink = PlaybackQueue::new();
    sink.play(create_test_buffer(vec![0.5; 96000]));
    sink.append(create_test_buffer(vec![0.25; 96000]));

    // Take a little of the first clip, then skip: the second starts at
    // its very first sample (faded in from zero).
    for _ in 0..100 {
        assert!(sink.next_sample().is_some());
    }
    sink.skip_one();
    assert_eq!(sink.queue_len(), 1);
    let first_of_second = sink.next_sample().unwrap();
    assert_eq!(first_of_second, 0); // fade-in starts at zero gain

    sink.pause();
    assert!(sink.next_sample().is_none());
    assert!(!sink.is_playing());
    sink.resume();
    assert!(sink.next_sample().is_some());

    sink.set_volume(0);
    assert_eq!(sink.volume(), 0);
    assert_eq!(sink.next_sample(), Some(0)); // muted but still advancing
    sink.set_volume(9999);
    assert_eq!(sink.volume(), 1000);

    sink.stop();
    assert!(sink.is_finished());
}

