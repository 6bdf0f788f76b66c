//! Catalogue parsing, settings, scheduling policy and display-state
//! behaviour.

use tappr::buffer::{LoopInfo, SAMPLE_RATE};
use tappr::decode::AudioDecoder;
use tappr::classifier::ContentType;
use tappr::errors::{AudioError, RadioError, TapprError};
use tappr::playback::AudioDevice;
use tappr::radio::{
    choose_by_draw, contains_chars, filter_region_places, filter_valid_places, find_place_by_id,
    first_channel_hit, flatten_channels, station_from_channel, ChannelData, ChannelItem,
    ChannelRef, CountryRef, Place, PlaceContent, PlaceRef, PlacesCache, SearchPage, SearchSource,
};
use tappr::settings::{parse_meter, BpmMode, PlaybackState, Settings, StationInfo};
use tappr::stream::{check_stream_status, finish_capture};
use tappr::sync::SyncTimer;
use tappr::tasks::{
    classify_failure, clip_channel_capacity, coordinator_step, worker_backoff_ms,
    worker_start_delay_ms, worker_uses_quick_start, ProducerCommand, WorkerOutcome,
};
use tappr::tui_state::{map_key, InputAction, Key, TuiState};

fn place(id: &str, country: &str, size: u32) -> Place {
    Place {
        id: id.to_string(),
        title: format!("{} city", id),
        country: country.to_string(),
        url: format!("/visit/{}", id),
        size,
        boost: false,
        latitude_micro: 51_507_400,
        longitude_micro: -127_800,
    }
}

fn channel_ref(url: &str) -> ChannelRef {
    ChannelRef { url: url.to_string(), title: "ch".to_string() }
}

#[test]
fn test_channel_id_extraction() {
    let c = channel_ref("/listen/3fm/UsxY2mdY");
    assert_eq!(c.id(), Some("UsxY2mdY"));

    let bad = channel_ref("/visit/3fm/UsxY2mdY");
    assert!(bad.id().is_none());

    let short = channel_ref("/lis");
    assert!(short.id().is_none());
}

#[test]
fn test_search_source_helpers() {
    let src = SearchSource {
        code: None,
        page: Some(SearchPage {
            url: "/listen/radio/abc123".to_string(),
            title: "Radio".to_string(),
            place: Some(PlaceRef { id: "p1".to_string(), title: "Town".to_string() }),
            country: Some(CountryRef { id: "c1".to_string(), title: "Land".to_string() }),
            subtitle: None,
        }),
        result_type: "channel".to_string(),
    };
    assert!(src.is_channel());
    assert!(!src.is_place());
    assert_eq!(src.id(), Some("abc123"));
    assert_eq!(src.title(), Some("Radio"));
    assert!(src.page().is_some());

    let empty = SearchSource { code: None, page: None, result_type: "place".to_string() };
    assert!(empty.is_place());
    assert!(empty.id().is_none());
}

#[test]
fn test_first_channel_hit_skips_places() {
    let a = SearchSource { code: None, page: None, result_type: "channel".to_string() };
    let b = SearchSource { code: None, page: None, result_type: "place".to_string() };
    let c = SearchSource {
        code: None,
        page: Some(SearchPage {
            url: "/listen/x/y".to_string(),
            title: "X".to_string(),
            place: None,
            country: None,
            subtitle: None,
        }),
        result_type: "channel".to_string(),
    };
    let results = vec![a, b, c];
    let hit = first_channel_hit(&results).expect("expected a channel hit");
    assert_eq!(hit.title(), Some("X"));
}

#[test]
fn test_place_filters() {
    let places = vec![place("a", "Norway", 0), place("b", "Norway", 3), place("c", "Chile", 1)];
    let valid = filter_valid_places(places.clone());
    assert_eq!(valid.len(), 2);
    assert_eq!(valid[0].id, "b");
    assert_eq!(valid[1].id, "c");

    let by_region = filter_region_places(places, "norw");
    assert_eq!(by_region.len(), 1);
    assert_eq!(by_region[0].id, "b");
}

#[test]
fn test_contains_and_choose() {
    assert!(contains_chars("South Africa", "Africa"));
    assert!(!contains_chars("Chile", "africa"));
    assert!(contains_chars("anything", ""));

    let items = vec![10u32, 20, 30];
    assert_eq!(choose_by_draw(&items, 7), Some(&20));
    let empty: Vec<u32> = Vec::new();
    assert!(choose_by_draw(&empty, 7).is_none());
}

#[test]
fn test_flatten_and_find() {
    let content = vec![
        PlaceContent {
            items_type: None,
            items: vec![
                ChannelItem { page: channel_ref("/listen/a/1") },
                ChannelItem { page: channel_ref("/listen/b/2") },
            ],
        },
        PlaceContent { items_type: None, items: vec![ChannelItem { page: channel_ref("/x") }] },
    ];
    let flat = flatten_channels(content);
    assert_eq!(flat.len(), 3);
    assert_eq!(flat[1].url, "/listen/b/2");

    let places = vec![place("p1", "A", 1), place("p2", "B", 2)];
    assert_eq!(find_place_by_id(&places, "p2").map(|p| p.size), Some(2));
    assert!(find_place_by_id(&places, "p9").is_none());
}

#[test]
fn test_station_from_channel() {
    let channel = ChannelData {
        id: "id9".to_string(),
        title: "The Station".to_string(),
        url: "/listen/the/id9".to_string(),
        website: Some("https://example.net".to_string()),
        secure: true,
        place: PlaceRef { id: "p1".to_string(), title: "Fallback Town".to_string() },
        country: CountryRef { id: "c1".to_string(), title: "Land".to_string() },
    };
    let p = place("p1", "Land", 4);
    let with_place = station_from_channel(&channel, Some(&p), "http://s".to_string());
    assert_eq!(with_place.place_name, "p1 city");
    assert_eq!(with_place.latitude_micro, 51_507_400);
    assert_eq!(with_place.stream_url.as_deref(), Some("http://s"));

    let without = station_from_channel(&channel, None, "http://s".to_string());
    assert_eq!(without.place_name, "Fallback Town");
    assert_eq!(without.latitude_micro, 0);
}

#[test]
fn test_places_cache_ttl() {
    let mut cache = PlacesCache::new();
    assert!(cache.get(1000).is_none());
    cache.set(vec![place("a", "A", 1)], 1000);
    assert!(cache.get(1000).is_some());
    assert!(cache.get(1000 + 3599).is_some());
    assert!(cache.get(1000 + 3600).is_none());
    // A clock that ran backwards invalidates the entry.
    assert!(cache.get(999).is_none());
    cache.clear();
    assert!(cache.get(1000).is_none());
}

#[test]
fn test_parse_meter() {
    assert_eq!(parse_meter("4/4"), 4);
    assert_eq!(parse_meter("7/8"), 7);
    assert_eq!(parse_meter("12/8"), 12);
    assert_eq!(parse_meter("x/4"), 4);
    assert_eq!(parse_meter(""), 4);
    assert_eq!(parse_meter("999/4"), 4);
}

fn settings() -> Settings {
    Settings {
        bpm_mode: BpmMode::Auto { min: 70_000, max: 170_000 },
        bars: 8,
        beats_per_bar: 4,
        listen_seconds: 20,
        clip_seconds: 4,
        station_change_seconds: 12,
        min_rms_milli: 10,
        max_silence_millis: 2000,
        audio_device_index: 0,
        audio_devices: vec![AudioDevice { name: "Default".to_string(), index: 0 }],
    }
}

#[test]
fn test_settings_cycles() {
    let mut s = settings();
    s.cycle_bars_up();
    assert_eq!(s.bars, 16);
    s.cycle_bars_up();
    assert_eq!(s.bars, 1);
    s.cycle_bars_down();
    assert_eq!(s.bars, 16);

    s.toggle_bpm_mode();
    assert_eq!(s.bpm_mode, BpmMode::Fixed(120_000));
    s.toggle_bpm_mode();
    assert_eq!(s.bpm_mode, BpmMode::Auto { min: 70_000, max: 170_000 });
}

#[test]
fn test_next_audio_device() {
    let mut s = settings();
    let devices = vec![
        AudioDevice { name: "a".to_string(), index: 0 },
        AudioDevice { name: "b".to_string(), index: 1 },
    ];
    assert!(s.next_audio_device(devices.clone()));
    assert_eq!(s.audio_device_index, 1);
    assert_eq!(s.current_audio_device_name(), "b");
    assert!(s.next_audio_device(devices));
    assert_eq!(s.audio_device_index, 0);

    let one = vec![AudioDevice { name: "only".to_string(), index: 0 }];
    assert!(!s.next_audio_device(one));
    assert!(!s.next_audio_device(Vec::new()));
}

#[test]
fn test_playback_state_tags() {
    assert_eq!(PlaybackState::Idle.status_text(), "IDLE");
    let st = PlaybackState::Playing {
        station: StationInfo::default(),
        loop_info: LoopInfo {
            bpm_milli: 120_000,
            source_bpm_milli: 120_000,
            bpm_confidence_milli: 1000,
            time_stretched: false,
            bars: 1,
            beats_per_bar: 4,
            duration_samples: 96000,
            sample_rate: SAMPLE_RATE,
        },
    };
    assert_eq!(st.status_text(), "PLAYING");
    assert!(st.is_playing());
    assert!(st.station().is_some());
}

#[test]
fn test_error_taxonomy() {
    assert!(TapprError::Radio(RadioError::Http("down".to_string())).is_recoverable());
    assert!(TapprError::Radio(RadioError::RateLimited(5)).is_recoverable());
    assert!(TapprError::Audio(AudioError::EmptyStream).is_recoverable());
    assert!(TapprError::Audio(AudioError::StreamError("x".to_string())).is_recoverable());
    assert!(!TapprError::Audio(AudioError::ToolNotFound).is_recoverable());
    assert!(!TapprError::Radio(RadioError::NoStreamUrl).is_recoverable());
}

#[test]
fn test_worker_policy() {
    assert_eq!(clip_channel_capacity(), 15);
    assert_eq!(worker_start_delay_ms(0), 0);
    assert_eq!(worker_start_delay_ms(3), 600);
    assert!(worker_uses_quick_start(0));
    assert!(worker_uses_quick_start(1));
    assert!(!worker_uses_quick_start(2));

    let rejected = classify_failure(&TapprError::Audio(AudioError::NotMusic("talk".to_string())));
    assert_eq!(rejected, WorkerOutcome::Rejected);
    assert_eq!(worker_backoff_ms(rejected), 0);
    let transient = classify_failure(&TapprError::Audio(AudioError::EmptyStream));
    assert_eq!(transient, WorkerOutcome::Transient);
    assert_eq!(worker_backoff_ms(transient), 500);
    let persistent = classify_failure(&TapprError::Audio(AudioError::ToolNotFound));
    assert_eq!(persistent, WorkerOutcome::Persistent);
    assert_eq!(worker_backoff_ms(persistent), 2000);
}

#[test]
fn test_coordinator_routing() {
    let skip = coordinator_step(ProducerCommand::NextStation);
    assert!(!skip.quit);
    assert!(matches!(skip.forward, Some(tappr::tasks::ProducerEvent::SkipCurrent)));

    let dev = coordinator_step(ProducerCommand::AudioDeviceChanged(2));
    assert!(matches!(dev.forward, Some(tappr::tasks::ProducerEvent::AudioDeviceChanged(2))));

    let quit = coordinator_step(ProducerCommand::Quit);
    assert!(quit.quit);
    assert!(quit.forward.is_none());
}

#[test]
fn test_content_acceptance() {
    assert!(tappr::tasks::accepts_content(false, ContentType::Music));
    assert!(tappr::tasks::accepts_content(false, ContentType::Unknown));
    assert!(!tappr::tasks::accepts_content(false, ContentType::Speech));
    assert!(!tappr::tasks::accepts_content(false, ContentType::Silence));
    // Quick start only rejects silence.
    assert!(tappr::tasks::accepts_content(true, ContentType::Speech));
    assert!(!tappr::tasks::accepts_content(true, ContentType::Silence));
}

#[test]
fn test_sync_timer() {
    let mut t = SyncTimer::new();
    assert!(!t.should_advance(0, 5));

    // First clip plays immediately and schedules its end.
    assert!(t.on_loop_ready(true, 1000, 2000));
    assert!(!t.should_advance(2999, 1));
    assert!(t.should_advance(3000, 1));
    // Nothing queued: no advance even past the end.
    assert!(!t.should_advance(3000, 0));

    // A queued clip leaves the schedule alone.
    assert!(!t.on_loop_ready(false, 1500, 7000));
    assert!(t.should_advance(3000, 1));

    t.on_advanced(3000, Some(1000));
    assert!(!t.should_advance(3999, 1));
    t.on_skip(4000, None);
    assert!(!t.should_advance(10_000, 3));
    t.on_device_change();
    assert!(!t.should_advance(10_000, 3));
}

#[test]
fn test_key_mapping() {
    assert_eq!(map_key(Key::Char('q')), Some(InputAction::Quit));
    assert_eq!(map_key(Key::Esc), Some(InputAction::Quit));
    assert_eq!(map_key(Key::Char('n')), Some(InputAction::NextStation));
    assert_eq!(map_key(Key::Char('b')), Some(InputAction::ToggleBpmMode));
    assert_eq!(map_key(Key::Char('+')), Some(InputAction::CycleBarsUp));
    assert_eq!(map_key(Key::Char('=')), Some(InputAction::CycleBarsUp));
    assert_eq!(map_key(Key::Char('-')), Some(InputAction::CycleBarsDown));
    assert_eq!(map_key(Key::Char('d')), Some(InputAction::CycleAudioDevice));
    assert_eq!(map_key(Key::Char('z')), None);
    assert_eq!(map_key(Key::Other), None);
}

fn info_secs(secs: usize) -> LoopInfo {
    LoopInfo {
        bpm_milli: 120_000,
        source_bpm_milli: 120_000,
        bpm_confidence_milli: 900,
        time_stretched: false,
        bars: 1,
        beats_per_bar: 4,
        duration_samples: secs * SAMPLE_RATE as usize,
        sample_rate: SAMPLE_RATE,
    }
}

fn station(name: &str) -> StationInfo {
    StationInfo { name: name.to_string(), ..StationInfo::default() }
}

#[test]
fn test_tui_queue_and_history() {
    let mut t = TuiState::new();
    assert_eq!(t.queue_len(), 0);

    t.set_loading(station("first"));
    assert!(matches!(t.play_status, tappr::tui_state::PlayStatus::Loading));

    t.set_now_playing(station("first"), info_secs(2));
    assert!(t.now_playing_station.is_some());

    t.add_to_queue(station("second"), info_secs(3));
    t.add_to_queue(station("third"), info_secs(1));
    assert_eq!(t.queue_len(), 2);

    let advanced = t.advance_queue().expect("queue had entries");
    assert_eq!(advanced.0, 3000); // 3 s in milliseconds
    assert_eq!(advanced.1, 120_000);
    assert_eq!(t.queue_len(), 1);
    assert_eq!(t.station_history.len(), 1);
    assert_eq!(t.station_history[0].name, "first");

    // The history never grows past ten stations.
    for k in 0..15 {
        t.set_now_playing(station(&format!("s{}", k)), info_secs(1));
    }
    assert_eq!(t.station_history.len(), 10);

    assert!(t.advance_queue().is_some());
    assert!(t.advance_queue().is_none());
}

#[test]
fn test_stream_capture_judgements() {
    assert!(check_stream_status(200).is_ok());
    assert!(check_stream_status(299).is_ok());
    assert!(matches!(
        check_stream_status(404),
        Err(AudioError::StreamHttpError(404))
    ));
    assert!(matches!(
        check_stream_status(301),
        Err(AudioError::StreamHttpError(301))
    ));

    assert!(matches!(finish_capture(Vec::new()), Err(AudioError::EmptyStream)));
    let bytes = finish_capture(vec![1u8, 2, 3]).expect("bytes survive");
    assert_eq!(bytes, vec![1u8, 2, 3]);
}

#[test]
fn test_decoder_judgement() {
    let args = AudioDecoder::transcode_args();
    assert_eq!(args.len(), 14);
    assert_eq!(args[6], "f32le");
    assert_eq!(args[10], "48000");
    assert_eq!(args[12], "2");

    assert!(AudioDecoder::judge_output(0, 100, String::new()).is_ok());
    assert!(matches!(
        AudioDecoder::judge_output(1, 100, "boom".to_string()),
        Err(AudioError::ToolFailed(1, _))
    ));
    assert!(matches!(
        AudioDecoder::judge_output(0, 0, String::new()),
        Err(AudioError::DecodeError(_))
    ));
}

#[test]
fn test_loop_buffer_shape() {
    // Quantize a generous buffer at a fixed tempo and check the loop
    // invariant numerically: duration covers bars * beats at the tempo.
    let quantizer = tappr::quantize::Quantizer::new(70_000, 170_000);
    let samples = vec![3000i32; 48000 * 2 * 5]; // 5 s of quiet stereo
    let raw = tappr::buffer::RawAudioBuffer::new(samples, 48000, 2);
    let buf = quantizer
        .quantize_stretched(raw, 120_400, 120_000, 2, 4)
        .expect("long enough");
    assert_eq!(buf.loop_info.duration_samples, 192_000);
    assert_eq!(buf.samples.len(), 192_000 * 2);
    assert!(!buf.loop_info.time_stretched); // within half a BPM
    let per_beat = (60_000.0f64 * 48000.0 / 120_000.0).round() as usize;
    assert_eq!(buf.loop_info.duration_samples, 2 * 4 * per_beat);
}
