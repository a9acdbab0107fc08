use vrc_stt::config::initial_prompt_from_text;
use vrc_stt::config::{ChannelMixMode, Config, ConfigManager, UdpConfig, VadConfig, VadMode};

#[test]
fn defaults() {
    let c = Config::default();
    assert_eq!(c.model_path, "./model/medium.bin");
    assert_eq!(c.language, "en");
    assert_eq!(c.interface_language, "en");
    assert!(c.initial_prompt.is_none());
    assert_eq!(c.udp.port, 5005);
    assert_eq!(c.udp.to, "127.0.0.1:9000");
    assert_eq!(c.vad.debounce_times, 160);
    assert_eq!(c.vad.threshold_level, 3277);
    assert_eq!(c.vad.mode, VadMode::VeryAggressive);
    assert_eq!(c.audio.channel_mix_mode, ChannelMixMode::MixToMono);
    let u = UdpConfig::default();
    assert_eq!(u.port, 5005);
    let v = VadConfig::default();
    assert_eq!(v.debounce_times, 160);
}

#[test]
fn manager_holds_config_and_path() {
    let path = std::path::PathBuf::from("/tmp/vrc-stt/config.json");
    let mut m = ConfigManager::new(Config::default(), path.clone());
    assert_eq!(m.path(), &path);
    m.config_mut().language = "ja".to_string();
    assert_eq!(m.config().language, "ja");
    let mut c = Config::default();
    c.udp.port = 9001;
    m.set_config(c);
    assert_eq!(m.config().udp.port, 9001);
    assert_eq!(m.config().language, "en");
    assert_eq!(m.path(), &path);
    let copy = m.clone();
    assert_eq!(copy.config().udp.port, 9001);
}

#[test]
fn empty_prompt_means_none() {
    assert_eq!(initial_prompt_from_text(String::new()), None);
    assert_eq!(initial_prompt_from_text("Hello".to_string()), Some("Hello".to_string()));
}
