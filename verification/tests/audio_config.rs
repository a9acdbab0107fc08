use vrc_stt::audio::config::{
    buffer_size_frames, find_best_config, find_best_stream_config, find_config_at_rate, AudioConfig,
    AudioError, StreamConfigRange,
};

fn range(min: u32, max: u32, channels: u16) -> StreamConfigRange {
    StreamConfigRange { min_sample_rate: min, max_sample_rate: max, channels }
}

#[test]
fn prefers_fewest_channels_at_a_rate() {
    let configs = [range(8000, 48000, 2), range(16000, 16000, 1), range(8000, 48000, 1)];
    assert_eq!(find_config_at_rate(&configs, 16000), Some(1));
    assert_eq!(find_config_at_rate(&configs, 44100), Some(2));
    assert_eq!(find_config_at_rate(&configs, 96000), None);
}

#[test]
fn prefers_16khz_then_fallback_rates() {
    let configs = [range(44100, 48000, 2), range(24000, 24000, 4)];
    let choice = find_best_stream_config(&configs).unwrap();
    assert_eq!(choice.sample_rate, 24000);
    assert_eq!(choice.config_index, 1);
    assert_eq!(choice.channels, 4);

    let configs = [range(44100, 44100, 2), range(48000, 48000, 2)];
    let choice = find_best_stream_config(&configs).unwrap();
    assert_eq!(choice.sample_rate, 48000);
    assert_eq!(choice.config_index, 1);

    let configs = [range(8000, 96000, 1)];
    assert_eq!(find_best_stream_config(&configs).unwrap().sample_rate, 16000);
}

#[test]
fn no_usable_rate_is_an_error() {
    let configs = [range(8000, 11025, 1), range(96000, 192000, 2)];
    assert!(matches!(find_best_stream_config(&configs), Err(AudioError::ConfigNotSupported)));
    assert!(matches!(find_best_stream_config(&[]), Err(AudioError::ConfigNotSupported)));
    assert_eq!(find_best_config(&configs), None);
    assert!(matches!(AudioConfig::from_ranges(&configs), Err(AudioError::ConfigNotSupported)));
}

#[test]
fn simple_choice_takes_first_range() {
    let configs = [range(8000, 48000, 2), range(16000, 16000, 1)];
    assert_eq!(find_best_config(&configs), Some((0, 16000)));
    let configs = [range(22050, 22050, 1), range(32000, 32000, 1)];
    assert_eq!(find_best_config(&configs), Some((1, 32000)));
}

#[test]
fn audio_config_flags() {
    let mono16 = AudioConfig::from_ranges(&[range(16000, 16000, 1)]).unwrap();
    assert_eq!(mono16.sample_rate(), 16000);
    assert_eq!(mono16.channels(), 1);
    assert!(!mono16.needs_processing());

    let stereo16 = AudioConfig::from_ranges(&[range(16000, 16000, 2)]).unwrap();
    assert!(stereo16.needs_processing());

    let mono48 = AudioConfig::from_ranges(&[range(48000, 48000, 1)]).unwrap();
    assert_eq!(mono48.sample_rate(), 48000);
    assert_eq!(mono48.config_index(), 0);
    assert!(mono48.needs_processing());
}

#[test]
fn ten_millisecond_buffers() {
    assert_eq!(buffer_size_frames(16000), 160);
    assert_eq!(buffer_size_frames(44100), 441);
    assert_eq!(buffer_size_frames(48000), 480);
}

#[test]
fn error_messages() {
    assert_eq!(AudioError::DeviceNotFound.message(), "No input device found");
    assert_eq!(AudioError::ConfigNotSupported.message(), "No supported audio configuration found");
    assert_eq!(
        AudioError::StreamError("busy".to_string()).message(),
        "Failed to build audio stream: busy"
    );
    assert_eq!(AudioError::PlayError("gone".to_string()).message(), "Failed to play audio stream: gone");
}
