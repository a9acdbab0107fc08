//! Choosing the capture configuration among what the input device offers.

use vstd::prelude::*;

use super::TARGET_SAMPLE_RATE;

verus! {

/// A range of sample rates an input device supports for a channel count.
#[derive(Clone, Copy, Debug, PartialEq, Eq, Structural)]
pub struct StreamConfigRange {
    pub min_sample_rate: u32,
    pub max_sample_rate: u32,
    pub channels: u16,
}

/// Errors of the audio pipeline.
#[derive(Clone, Debug)]
pub enum AudioError {
    /// There is no input device.
    DeviceNotFound,
    /// The device supports none of the usable sample rates.
    ConfigNotSupported,
    /// The input stream could not be built; carries the device's message.
    StreamError(String),
    /// The input stream could not be started; carries the device's message.
    PlayError(String),
}

/// Message describing an audio error.
pub open spec fn audio_error_message(e: AudioError) -> Seq<char> {
    match e {
        AudioError::DeviceNotFound => "No input device found"@,
        AudioError::ConfigNotSupported => "No supported audio configuration found"@,
        AudioError::StreamError(m) => "Failed to build audio stream: "@ + m@,
        AudioError::PlayError(m) => "Failed to play audio stream: "@ + m@,
    }
}

impl AudioError {
    /// A message describing the error.
    pub fn message(&self) -> (res: String)
        ensures
            res@ == audio_error_message(*self),
    {
        match self {
            AudioError::DeviceNotFound => "No input device found".to_owned(),
            AudioError::ConfigNotSupported => "No supported audio configuration found".to_owned(),
            AudioError::StreamError(m) => {
                let mut res = "Failed to build audio stream: ".to_owned();
                res.append(m.as_str());
                res
            },
            AudioError::PlayError(m) => {
                let mut res = "Failed to play audio stream: ".to_owned();
                res.append(m.as_str());
                res
            },
        }
    }
}

/// `c` supports `rate`.
pub open spec fn supports(c: StreamConfigRange, rate: u32) -> bool {
    c.min_sample_rate <= rate && rate <= c.max_sample_rate
}

/// Some configuration supports `rate`.
pub open spec fn rate_supported(configs: Seq<StreamConfigRange>, rate: u32) -> bool {
    exists|i: int| 0 <= i < configs.len() && supports(#[trigger] configs[i], rate)
}

/// `i` is the first configuration with the fewest channels among those
/// that support `rate`.
pub open spec fn is_fewest_channels_at(configs: Seq<StreamConfigRange>, rate: u32, i: int) -> bool {
    &&& 0 <= i < configs.len()
    &&& supports(configs[i], rate)
    &&& forall|j: int|
        0 <= j < configs.len() && supports(#[trigger] configs[j], rate) ==> configs[i].channels
            <= configs[j].channels
    &&& forall|j: int|
        0 <= j < i && supports(#[trigger] configs[j], rate) ==> configs[i].channels
            < configs[j].channels
}

/// `i` is the first configuration that supports `rate`.
pub open spec fn is_first_at(configs: Seq<StreamConfigRange>, rate: u32, i: int) -> bool {
    &&& 0 <= i < configs.len()
    &&& supports(configs[i], rate)
    &&& forall|j: int| 0 <= j < i ==> !supports(#[trigger] configs[j], rate)
}

/// Sample rates tried, in order of preference: the recognizer's own rate,
/// then rates that can be resampled to it.
pub open spec fn preferred_rates() -> Seq<u32> {
    seq![TARGET_SAMPLE_RATE, 24000u32, 48000u32, 44100u32, 32000u32, 22050u32]
}

/// The preferred rates, in order.
fn preferred_sample_rates() -> (res: Vec<u32>)
    ensures
        res@ == preferred_rates(),
{
    let res = vec![TARGET_SAMPLE_RATE, 24000u32, 48000u32, 44100u32, 32000u32, 22050u32];
    assert(res@ =~= preferred_rates());
    res
}

/// `k` is the first preferred rate that some configuration supports.
pub open spec fn is_first_supported_rate(configs: Seq<StreamConfigRange>, k: int) -> bool {
    &&& 0 <= k < preferred_rates().len()
    &&& rate_supported(configs, preferred_rates()[k])
    &&& forall|q: int| 0 <= q < k ==> !rate_supported(configs, #[trigger] preferred_rates()[q])
}

/// No configuration supports any preferred rate.
pub open spec fn no_rate_supported(configs: Seq<StreamConfigRange>) -> bool {
    forall|q: int|
        0 <= q < preferred_rates().len() ==> !rate_supported(configs, #[trigger] preferred_rates()[q])
}

/// Some range supports one of the six rates a device is tried at:
/// 16, 24, 48, 44.1, 32 or 22.05 kHz.
pub open spec fn some_usable_rate(configs: Seq<StreamConfigRange>) -> bool {
    ||| rate_supported(configs, 16000u32)
    ||| rate_supported(configs, 24000u32)
    ||| rate_supported(configs, 48000u32)
    ||| rate_supported(configs, 44100u32)
    ||| rate_supported(configs, 32000u32)
    ||| rate_supported(configs, 22050u32)
}

/// The rates a device is tried at, in order: 16 kHz (the recognizer's own
/// rate), then 24, 48, 44.1, 32 and 22.05 kHz, which are resampled. A
/// device is refused exactly when no range supports any of them, so a
/// device that supports one of them (44.1 kHz alone, say) gets a
/// configuration.
pub proof fn lemma_rates_tried(configs: Seq<StreamConfigRange>)
    ensures
        preferred_rates() == seq![16000u32, 24000u32, 48000u32, 44100u32, 32000u32, 22050u32],
        no_rate_supported(configs) <==> !some_usable_rate(configs),
{
    let r = preferred_rates();
    assert(r[0] == 16000u32 && r[1] == 24000u32 && r[2] == 48000u32);
    assert(r[3] == 44100u32 && r[4] == 32000u32 && r[5] == 22050u32);
    assert(r =~= seq![16000u32, 24000u32, 48000u32, 44100u32, 32000u32, 22050u32]);
    if no_rate_supported(configs) {
        assert(!rate_supported(configs, r[0]));
        assert(!rate_supported(configs, r[1]));
        assert(!rate_supported(configs, r[2]));
        assert(!rate_supported(configs, r[3]));
        assert(!rate_supported(configs, r[4]));
        assert(!rate_supported(configs, r[5]));
    }
    if !some_usable_rate(configs) {
        assert forall|q: int| 0 <= q < r.len() implies !rate_supported(configs, #[trigger] r[q]) by {
            assert(q == 0 || q == 1 || q == 2 || q == 3 || q == 4 || q == 5);
        }
    }
}

/// Finds, among the configurations that support `rate`, the first one with
/// the fewest channels.
pub fn find_config_at_rate(configs: &[StreamConfigRange], rate: u32) -> (res: Option<usize>)
    ensures
        res is None <==> !rate_supported(configs@, rate),
        res matches Some(i) ==> is_fewest_channels_at(configs@, rate, i as int),
{
    let mut best: Option<usize> = None;
    let mut i: usize = 0;
    while i < configs.len()
        invariant
            i <= configs@.len(),
            best is None <==> forall|j: int| 0 <= j < i ==> !supports(#[trigger] configs@[j], rate),
            best matches Some(b) ==> {
                &&& b < i
                &&& supports(configs@[b as int], rate)
                &&& forall|j: int|
                    0 <= j < i && supports(#[trigger] configs@[j], rate) ==> configs@[b as int].channels
                        <= configs@[j].channels
                &&& forall|j: int|
                    0 <= j < b && supports(#[trigger] configs@[j], rate) ==> configs@[b as int].channels
                        < configs@[j].channels
            },
        decreases configs@.len() - i,
    {
        let c = configs[i];
        if c.min_sample_rate <= rate && c.max_sample_rate >= rate {
            match best {
                None => {
                    best = Some(i);
                },
                Some(b) => {
                    if c.channels < configs[b].channels {
                        best = Some(i);
                    }
                },
            }
        }
        i += 1;
    }
    proof {
        if best is None {
            assert forall|j: int| 0 <= j < configs@.len() implies !supports(
                #[trigger] configs@[j],
                rate,
            ) by {}
        } else {
            let b = best->Some_0;
            assert(supports(configs@[b as int], rate));
        }
    }
    best
}

/// Finds the first configuration that supports `rate`.
pub fn find_first_config_at_rate(configs: &[StreamConfigRange], rate: u32) -> (res: Option<usize>)
    ensures
        res is None <==> !rate_supported(configs@, rate),
        res matches Some(i) ==> is_first_at(configs@, rate, i as int),
{
    let mut i: usize = 0;
    while i < configs.len()
        invariant
            i <= configs@.len(),
            forall|j: int| 0 <= j < i ==> !supports(#[trigger] configs@[j], rate),
        decreases configs@.len() - i,
    {
        let c = configs[i];
        if c.min_sample_rate <= rate && c.max_sample_rate >= rate {
            return Some(i);
        }
        i += 1;
    }
    None
}

/// A chosen configuration: its index among the device's ranges, the sample
/// rate to use and its channel count.
#[derive(Clone, Copy, Debug, PartialEq, Eq, Structural)]
pub struct StreamChoice {
    pub config_index: usize,
    pub sample_rate: u32,
    pub channels: u16,
}

/// Picks the best capture configuration: the first preferred rate that some
/// range supports, and for it the first range with the fewest channels.
pub fn find_best_stream_config(configs: &[StreamConfigRange]) -> (res: Result<
    StreamChoice,
    AudioError,
>)
    ensures
        res is Err <==> no_rate_supported(configs@),
        res is Ok <==> some_usable_rate(configs@),
        res matches Err(e) ==> e is ConfigNotSupported,
        res matches Ok(c) ==> exists|k: int|
            {
                &&& is_first_supported_rate(configs@, k)
                &&& c.sample_rate == #[trigger] preferred_rates()[k]
                &&& is_fewest_channels_at(configs@, c.sample_rate, c.config_index as int)
                &&& c.channels == configs@[c.config_index as int].channels
            },
{
    proof {
        lemma_rates_tried(configs@);
    }
    let rates = preferred_sample_rates();
    let mut k: usize = 0;
    while k < rates.len()
        invariant
            k <= rates@.len(),
            rates@ == preferred_rates(),
            forall|q: int| 0 <= q < k ==> !rate_supported(configs@, #[trigger] preferred_rates()[q]),
        decreases rates@.len() - k,
    {
        let rate = rates[k];
        match find_config_at_rate(configs, rate) {
            Some(i) => {
                let c = StreamChoice { config_index: i, sample_rate: rate, channels: configs[i].channels };
                assert(is_first_supported_rate(configs@, k as int));
                return Ok(c);
            },
            None => {},
        }
        k += 1;
    }
    Err(AudioError::ConfigNotSupported)
}

/// Picks a capture configuration the simple way: the first preferred rate
/// that some range supports, and the first range that supports it.
pub fn find_best_config(configs: &[StreamConfigRange]) -> (res: Option<(usize, u32)>)
    ensures
        res is None <==> no_rate_supported(configs@),
        res is Some <==> some_usable_rate(configs@),
        res matches Some(p) ==> exists|k: int|
            {
                &&& is_first_supported_rate(configs@, k)
                &&& p.1 == #[trigger] preferred_rates()[k]
                &&& is_first_at(configs@, p.1, p.0 as int)
            },
{
    proof {
        lemma_rates_tried(configs@);
    }
    let rates = preferred_sample_rates();
    let mut k: usize = 0;
    while k < rates.len()
        invariant
            k <= rates@.len(),
            rates@ == preferred_rates(),
            forall|q: int| 0 <= q < k ==> !rate_supported(configs@, #[trigger] preferred_rates()[q]),
        decreases rates@.len() - k,
    {
        let rate = rates[k];
        match find_first_config_at_rate(configs, rate) {
            Some(i) => {
                assert(is_first_supported_rate(configs@, k as int));
                return Some((i, rate));
            },
            None => {},
        }
        k += 1;
    }
    None
}

/// The capture configuration in use.
#[derive(Clone, Copy, Debug)]
pub struct AudioConfig {
    config_index: usize,
    actual_sample_rate: u32,
    channels_to_use: u16,
    needs_channel_mix: bool,
    needs_resampling: bool,
}

impl AudioConfig {
    /// The choice this configuration was made from.
    pub closed spec fn choice(&self) -> StreamChoice {
        StreamChoice {
            config_index: self.config_index,
            sample_rate: self.actual_sample_rate,
            channels: self.channels_to_use,
        }
    }

    /// Whether channels must be mixed down.
    pub closed spec fn mixes(&self) -> bool {
        self.needs_channel_mix
    }

    /// Whether the audio must be resampled.
    pub closed spec fn resamples(&self) -> bool {
        self.needs_resampling
    }

    /// The configuration for the best choice among the device's ranges (see
    /// [`find_best_stream_config`]): it mixes down when the choice has more
    /// than one channel and resamples when its rate is not the
    /// recognizer's.
    pub fn from_ranges(configs: &[StreamConfigRange]) -> (res: Result<AudioConfig, AudioError>)
        ensures
            res is Err <==> no_rate_supported(configs@),
            res is Ok <==> some_usable_rate(configs@),
            res matches Err(e) ==> e is ConfigNotSupported,
            res matches Ok(a) ==> exists|k: int|
                {
                    &&& is_first_supported_rate(configs@, k)
                    &&& a.choice().sample_rate == #[trigger] preferred_rates()[k]
                    &&& is_fewest_channels_at(
                        configs@,
                        a.choice().sample_rate,
                        a.choice().config_index as int,
                    )
                    &&& a.choice().channels == configs@[a.choice().config_index as int].channels
                },
            res matches Ok(a) ==> a.mixes() == (a.choice().channels > 1) && a.resamples() == (
            a.choice().sample_rate != TARGET_SAMPLE_RATE),
    {
        let choice = find_best_stream_config(configs)?;
        Ok(
            AudioConfig {
                config_index: choice.config_index,
                actual_sample_rate: choice.sample_rate,
                channels_to_use: choice.channels,
                needs_channel_mix: choice.channels > 1,
                needs_resampling: choice.sample_rate != TARGET_SAMPLE_RATE,
            },
        )
    }

    /// Index of the chosen range among the device's ranges.
    pub fn config_index(&self) -> (res: usize)
        ensures
            res == self.choice().config_index,
    {
        self.config_index
    }

    /// The sample rate in use.
    pub fn sample_rate(&self) -> (res: u32)
        ensures
            res == self.choice().sample_rate,
    {
        self.actual_sample_rate
    }

    /// The number of channels captured.
    pub fn channels(&self) -> (res: u16)
        ensures
            res == self.choice().channels,
    {
        self.channels_to_use
    }

    /// Whether the audio needs resampling or mixing down.
    pub fn needs_processing(&self) -> (res: bool)
        ensures
            res == (self.resamples() || self.mixes()),
    {
        self.needs_resampling || self.needs_channel_mix
    }
}

/// Frames in 10 ms of audio at `sample_rate`.
pub fn buffer_size_frames(sample_rate: u32) -> (res: u32)
    requires
        sample_rate <= u32::MAX / 10,
    ensures
        res == sample_rate * 10 / 1000,
{
    (sample_rate * 10) / 1000
}

} // verus!
