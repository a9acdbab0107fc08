//! Application configuration.

use vstd::prelude::*;

verus! {

/// Aggressiveness of the WebRTC voice activity detector.
#[derive(Clone, Copy, Debug, PartialEq, Eq, Structural)]
pub enum VadMode {
    Quality,
    LowBitrate,
    Aggressive,
    VeryAggressive,
}

/// How multi-channel input is reduced to mono.
#[derive(Clone, Copy, Debug, PartialEq, Eq, Structural)]
pub enum ChannelMixMode {
    /// Energy-preserving mix of all channels.
    MixToMono,
    /// Use only the first (left) channel.
    FirstChannel,
    /// Use only the second (right) channel.
    SecondChannel,
}

/// Voice activity detection settings.
///
/// `threshold_level` is an amplitude on the 16-bit PCM scale: a chunk only
/// counts as voice when some sample's magnitude exceeds it.
#[derive(Clone, Debug)]
pub struct VadConfig {
    pub threshold_level: u16,
    pub debounce_times: usize,
    pub mode: VadMode,
}

/// Amplitude that stands for a threshold level of 0.1 of full scale.
pub const DEFAULT_THRESHOLD_LEVEL: u16 = 3277;

/// Number of silent chunks tolerated before a recording ends.
pub const DEFAULT_DEBOUNCE_TIMES: usize = 160;

impl Default for VadConfig {
    fn default() -> (res: VadConfig)
        ensures
            res.threshold_level == DEFAULT_THRESHOLD_LEVEL,
            res.debounce_times == DEFAULT_DEBOUNCE_TIMES,
            res.mode == VadMode::VeryAggressive,
    {
        VadConfig {
            threshold_level: DEFAULT_THRESHOLD_LEVEL,
            debounce_times: DEFAULT_DEBOUNCE_TIMES,
            mode: VadMode::VeryAggressive,
        }
    }
}

/// UDP settings for sending OSC packets.
#[derive(Clone, Debug)]
pub struct UdpConfig {
    /// Local port the OSC socket binds to.
    pub port: u16,
    /// Address the OSC packets are sent to.
    pub to: String,
}

impl Default for UdpConfig {
    fn default() -> (res: UdpConfig)
        ensures
            res.port == 5005,
            res.to@ == "127.0.0.1:9000"@,
    {
        UdpConfig { port: 5005, to: "127.0.0.1:9000".to_owned() }
    }
}

/// Audio input settings.
#[derive(Clone, Debug)]
pub struct AudioConfig {
    pub channel_mix_mode: ChannelMixMode,
}

impl Default for AudioConfig {
    fn default() -> (res: AudioConfig)
        ensures
            res.channel_mix_mode == ChannelMixMode::MixToMono,
    {
        AudioConfig { channel_mix_mode: ChannelMixMode::MixToMono }
    }
}

/// Application configuration.
#[derive(Clone, Debug)]
pub struct Config {
    pub model_path: String,
    pub vad: VadConfig,
    pub language: String,
    pub udp: UdpConfig,
    pub audio: AudioConfig,
    pub initial_prompt: Option<String>,
    pub interface_language: String,
}

impl Default for Config {
    fn default() -> (res: Config)
        ensures
            res.model_path@ == "./model/medium.bin"@,
            res.vad.threshold_level == DEFAULT_THRESHOLD_LEVEL,
            res.vad.debounce_times == DEFAULT_DEBOUNCE_TIMES,
            res.vad.mode == VadMode::VeryAggressive,
            res.language@ == "en"@,
            res.udp.port == 5005,
            res.udp.to@ == "127.0.0.1:9000"@,
            res.audio.channel_mix_mode == ChannelMixMode::MixToMono,
            res.initial_prompt is None,
            res.interface_language@ == "en"@,
    {
        Config {
            model_path: "./model/medium.bin".to_owned(),
            vad: VadConfig::default(),
            language: "en".to_owned(),
            udp: UdpConfig::default(),
            audio: AudioConfig::default(),
            initial_prompt: None,
            interface_language: "en".to_owned(),
        }
    }
}

/// The initial prompt a text field stands for: none when the field is
/// empty.
pub fn initial_prompt_from_text(text: String) -> (res: Option<String>)
    ensures
        text@.len() == 0 ==> res is None,
        text@.len() > 0 ==> res == Some(text),
{
    if text.as_str().is_empty() {
        None
    } else {
        Some(text)
    }
}

#[verifier::external_type_specification]
#[verifier::external_body]
pub struct ExPathBuf(std::path::PathBuf);

/// `PathBuf::clone` gives back an equal path, as std's
/// documentation of `Clone` for `PathBuf` states.
pub assume_specification[ <std::path::PathBuf as Clone>::clone ](p: &std::path::PathBuf) -> (res:
    std::path::PathBuf)
    ensures
        res == *p,
;

/// A configuration together with the file it is stored in.
#[derive(Clone)]
pub struct ConfigManager {
    config: Config,
    path: std::path::PathBuf,
}

impl ConfigManager {
    /// The configuration held by the manager.
    pub closed spec fn current(&self) -> Config {
        self.config
    }

    /// The file the configuration is stored in.
    pub closed spec fn stored_at(&self) -> std::path::PathBuf {
        self.path
    }

    /// Creates a manager for `config` stored at `path`.
    pub fn new(config: Config, path: std::path::PathBuf) -> (res: ConfigManager)
        ensures
            res.current() == config,
            res.stored_at() == path,
    {
        ConfigManager { config, path }
    }

    /// The configuration.
    pub fn config(&self) -> (res: &Config)
        ensures
            *res == self.current(),
    {
        &self.config
    }

    /// Mutable access to the configuration; the path stays unchanged.
    pub fn config_mut(&mut self) -> (res: &mut Config)
        ensures
            *res == old(self).current(),
            final(self).current() == *final(res),
            final(self).stored_at() == old(self).stored_at(),
    {
        &mut self.config
    }

    /// The file the configuration is stored in.
    pub fn path(&self) -> (res: &std::path::PathBuf)
        ensures
            *res == self.stored_at(),
    {
        &self.path
    }

    /// Replaces the configuration, keeping the path.
    pub fn set_config(&mut self, config: Config)
        ensures
            final(self).current() == config,
            final(self).stored_at() == old(self).stored_at(),
    {
        self.config = config;
    }
}

} // verus!
