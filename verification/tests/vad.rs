use vrc_stt::config::{Config, ConfigManager, VadMode};
use vrc_stt::vad::{exceeds_threshold, vad_frame, VadEvent, VadState, VadWrapper, VAD_FRAME_SAMPLES};

fn chunk(value: i16) -> Vec<i16> {
    vec![value; 160]
}

#[test]
fn threshold_counts_only_louder_samples() {
    assert!(!exceeds_threshold(&[100, -100, 0], 100));
    assert!(exceeds_threshold(&[100, -101, 0], 100));
    assert!(exceeds_threshold(&[i16::MIN], 32767));
    assert!(!exceeds_threshold(&[], 0));
}

#[test]
fn vad_frame_pads_and_cuts() {
    let short = vad_frame(&[1, 2, 3]);
    assert_eq!(short.len(), VAD_FRAME_SAMPLES);
    assert_eq!(&short[..3], &[1, 2, 3]);
    assert!(short[3..].iter().all(|&s| s == 0));
    let long: Vec<i16> = (0..200).collect();
    let cut = vad_frame(&long);
    assert_eq!(cut, (0..160).collect::<Vec<i16>>());
}

#[test]
fn debounce_counts_silence() {
    let mut s = VadState::new(10, 2);
    // The tolerance starts used up: silence before any voice is silence.
    assert!(!s.debounce(false));
    assert!(s.debounce(true));
    assert!(s.debounce(false));
    assert!(s.debounce(false));
    assert!(!s.debounce(false));
    assert!(!s.debounce(false));
    assert!(s.debounce(true));
    assert!(s.debounce(false));
}

#[test]
fn fresh_detector_reports_silence_as_pending() {
    let mut s = VadState::new(10, 160);
    assert!(matches!(s.step(false, &chunk(0)), VadEvent::Pending));
    assert!(matches!(s.step(true, &chunk(3)), VadEvent::Pending));
    assert!(!s.in_voice());
}

#[test]
fn silence_without_recording_is_pending() {
    let mut s = VadState::new(10, 0);
    assert!(matches!(s.step(false, &chunk(1000)), VadEvent::Pending));
    // A quiet chunk does not count as voice even when WebRTC says so.
    assert!(matches!(s.step(true, &chunk(5)), VadEvent::Pending));
    assert!(!s.in_voice());
}

#[test]
fn recording_collects_chunks_until_silence_outlasts_debounce() {
    let mut s = VadState::new(10, 2);
    assert!(matches!(s.step(true, &chunk(100)), VadEvent::Start));
    assert!(s.in_voice());
    assert!(matches!(s.step(true, &chunk(200)), VadEvent::Recording));
    // Two silent chunks are tolerated and kept.
    assert!(matches!(s.step(false, &chunk(1)), VadEvent::Recording));
    assert!(matches!(s.step(true, &chunk(3)), VadEvent::Recording));
    // The third silent chunk ends the recording.
    match s.step(false, &chunk(7)) {
        VadEvent::End(v) => {
            let mut expected = chunk(100);
            expected.extend(chunk(200));
            expected.extend(chunk(1));
            expected.extend(chunk(3));
            assert_eq!(v, expected);
        }
        other => panic!("expected End, got {:?}", other),
    }
    assert!(!s.in_voice());
    assert!(matches!(s.step(false, &chunk(7)), VadEvent::Pending));
}

#[test]
fn voice_resets_the_silence_counter() {
    let mut s = VadState::new(10, 1);
    assert!(matches!(s.step(true, &chunk(50)), VadEvent::Start));
    assert!(matches!(s.step(false, &chunk(0)), VadEvent::Recording));
    assert!(matches!(s.step(true, &chunk(50)), VadEvent::Recording));
    assert!(matches!(s.step(false, &chunk(0)), VadEvent::Recording));
    assert!(matches!(s.step(false, &chunk(0)), VadEvent::End(_)));
}

#[test]
fn new_recording_starts_empty() {
    let mut s = VadState::new(10, 0);
    assert!(matches!(s.step(true, &chunk(20)), VadEvent::Start));
    match s.step(false, &chunk(0)) {
        VadEvent::End(v) => assert_eq!(v, chunk(20)),
        other => panic!("expected End, got {:?}", other),
    }
    assert!(matches!(s.step(true, &chunk(30)), VadEvent::Start));
    match s.step(false, &chunk(0)) {
        VadEvent::End(v) => assert_eq!(v, chunk(30)),
        other => panic!("expected End, got {:?}", other),
    }
}

#[test]
fn fresh_default_detector_fed_silence_is_pending() {
    let manager = ConfigManager::new(Config::default(), std::path::PathBuf::from("config.json"));
    let mut vad = VadWrapper::new(&manager);
    for _ in 0..200 {
        assert!(matches!(vad.segment_parse(&chunk(0)), VadEvent::Pending));
    }
}

#[test]
fn webrtc_detector_on_silence_from_start() {
    let mut config = Config::default();
    config.vad.debounce_times = 2;
    let manager = ConfigManager::new(config, std::path::PathBuf::from("config.json"));
    let mut vad = VadWrapper::new(&manager);
    for _ in 0..10 {
        assert!(matches!(vad.segment_parse(&chunk(0)), VadEvent::Pending));
    }
}

#[test]
fn recording_hands_back_exactly_its_chunks() {
    let mut s = VadState::new(10, 1);
    assert!(matches!(s.step(false, &chunk(500)), VadEvent::Pending));
    assert!(matches!(s.step(true, &chunk(1)), VadEvent::Pending));
    assert!(matches!(s.step(true, &chunk(40)), VadEvent::Start));
    assert!(matches!(s.step(true, &chunk(41)), VadEvent::Recording));
    assert!(matches!(s.step(false, &chunk(42)), VadEvent::Recording));
    match s.step(false, &chunk(43)) {
        VadEvent::End(v) => {
            let mut expected = chunk(40);
            expected.extend(chunk(41));
            expected.extend(chunk(42));
            assert_eq!(v, expected);
        }
        other => panic!("expected End, got {:?}", other),
    }
    assert!(matches!(s.step(true, &chunk(44)), VadEvent::Start));
    match s.step(false, &chunk(0)) {
        VadEvent::Recording => {}
        other => panic!("expected Recording, got {:?}", other),
    }
    match s.step(false, &chunk(0)) {
        VadEvent::End(v) => {
            let mut expected = chunk(44);
            expected.extend(chunk(0));
            assert_eq!(v, expected);
        }
        other => panic!("expected End, got {:?}", other),
    }
}

#[test]
fn webrtc_detector_accepts_short_chunks() {
    let mut config = Config::default();
    config.vad.mode = VadMode::Quality;
    config.vad.debounce_times = 0;
    let manager = ConfigManager::new(config, std::path::PathBuf::from("config.json"));
    let mut vad = VadWrapper::new(&manager);
    assert!(matches!(vad.segment_parse(&[0, 0, 0]), VadEvent::Pending));
    assert!(matches!(vad.segment_parse(&[]), VadEvent::Pending));
}

#[test]
fn debounce_hangover_is_exactly_the_tolerance() {
    for n in 0..5usize {
        let mut s = VadState::new(10, n);
        assert!(s.debounce(true));
        for i in 1..=(n + 3) {
            assert_eq!(s.debounce(false), i <= n);
        }
    }
}
