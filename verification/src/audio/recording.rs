//! What a client asks of one recording, and how a capture device and its
//! configuration are chosen for it.

use crate::number::{decimal, decimal_string};
use crate::text::{chars_of, contains, find};
use crate::whisper::transcription::Model;
use vstd::prelude::*;
use vstd::string::StringExecFns;

verus! {

/// The client's parameters of one record-then-transcribe cycle. Every
/// field is optional.
#[derive(Debug, PartialEq, Eq)]
pub struct Session {
    /// Part of the name of the capture device to use.
    pub input_device: Option<String>,
    /// The sample rate that the client would like.
    pub sample_rate: Option<u32>,
    /// The text that the inference engine starts from.
    pub prompt: Option<String>,
    /// The model to transcribe with.
    pub model: Option<Model>,
}

/// An optional text, borrowed.
pub fn as_deref(text: &Option<String>) -> (r: Option<&str>)
    ensures
        r is Some == text is Some,
        r is Some ==> r->0@ == text->0@,
{
    match text {
        Some(s) => Some(s.as_str()),
        None => None,
    }
}

/// A copy of an optional text.
pub fn clone_text(text: &Option<String>) -> (r: Option<String>)
    ensures
        r == *text,
{
    match text {
        Some(s) => Some(s.clone()),
        None => None,
    }
}

impl Default for Session {
    fn default() -> (s: Self)
        ensures
            s == (Session { input_device: None, sample_rate: None, prompt: None, model: None }),
    {
        Session { input_device: None, sample_rate: None, prompt: None, model: None }
    }
}

impl Clone for Session {
    fn clone(&self) -> (s: Self)
        ensures
            s == *self,
    {
        Session {
            input_device: clone_text(&self.input_device),
            sample_rate: self.sample_rate,
            prompt: clone_text(&self.prompt),
            model: self.model,
        }
    }
}

impl Session {
    #[must_use]
    pub fn new(
        input_device: Option<String>,
        sample_rate: Option<u32>,
        prompt: Option<String>,
        model: Option<Model>,
    ) -> (s: Self)
        ensures
            s == (Session { input_device, sample_rate, prompt, model }),
    {
        Session { input_device, sample_rate, prompt, model }
    }

    #[must_use]
    pub fn device_name(&self) -> (r: Option<&str>)
        ensures
            r is Some == self.input_device is Some,
            r is Some ==> r->0@ == self.input_device->0@,
    {
        as_deref(&self.input_device)
    }

    #[must_use]
    pub fn sample_rate(&self) -> (r: Option<u32>)
        ensures
            r == self.sample_rate,
    {
        self.sample_rate
    }

    #[must_use]
    pub fn model(&self) -> (r: Option<Model>)
        ensures
            r == self.model,
    {
        self.model
    }

    #[must_use]
    pub fn prompt(&self) -> (r: Option<&str>)
        ensures
            r is Some == self.prompt is Some,
            r is Some ==> r->0@ == self.prompt->0@,
    {
        as_deref(&self.prompt)
    }
}

/// The kind of sample that a device delivers.
#[derive(Debug, Clone, Copy, PartialEq, Eq, Structural)]
pub enum SampleFormat {
    I8,
    I16,
    I32,
    I64,
    U8,
    U16,
    U32,
    U64,
    F32,
    F64,
    Other,
}

/// One configuration that a device supports: a channel count, a range of
/// sample rates, and a sample format.
#[derive(Debug, Clone, Copy, PartialEq, Eq, Structural)]
pub struct ConfigRange {
    pub channels: u16,
    pub min_sample_rate: u32,
    pub max_sample_rate: u32,
    pub sample_format: SampleFormat,
}

/// A capture device as far as the choice looks at it: its name, if it
/// could be read, and its configurations, if they could be listed.
#[derive(Debug, PartialEq, Eq)]
pub struct Device {
    pub name: Option<String>,
    pub configs: Option<Vec<ConfigRange>>,
}

/// A device and one of its configurations, by their indices, with the
/// sample rate to open the stream at: the lowest of the configuration.
#[derive(Debug, Clone, Copy, PartialEq, Eq, Structural)]
pub struct Candidate {
    pub device: usize,
    pub config: usize,
    pub channels: u16,
    pub sample_rate: u32,
    pub sample_format: SampleFormat,
}

/// The channel layouts that the pipeline can mix down.
#[derive(Debug, Clone, Copy, PartialEq, Eq, Structural)]
pub enum Channels {
    Mono,
    Stereo,
}

/// What to open for a recording.
#[derive(Debug, Clone, Copy, PartialEq, Eq, Structural)]
pub struct StreamPlan {
    pub device: usize,
    pub config: usize,
    pub channels: Channels,
    pub sample_rate: u32,
}

/// Why the devices could not be used.
#[derive(Debug, PartialEq, Eq)]
pub enum SessionError {
    /// The devices could not be listed.
    Device(String),
    /// The session's parameters make no sense.
    Parameters(String),
}

/// Why a recording failed.
#[derive(Debug, PartialEq, Eq)]
pub enum Error {
    NoSupportedConfigs,
    InvalidChannelCount(u16),
    InvalidSampleFormat(SampleFormat),
    PlayStream(String),
    Session(SessionError),
    Process(String),
    Sync,
    ThreadPanic(String),
}

/// The rate that is looked for in a configuration: the session's, or else
/// the configuration's lowest rate, but no less than 16 kHz.
pub open spec fn desired_rate(hint: Option<u32>, c: ConfigRange) -> u32 {
    match hint {
        Some(rate) => rate,
        None => if c.min_sample_rate >= 16000 {
            c.min_sample_rate
        } else {
            16000
        },
    }
}

/// The configuration's range of sample rates holds the rate looked for.
pub open spec fn config_fits(hint: Option<u32>, c: ConfigRange) -> bool {
    c.min_sample_rate <= desired_rate(hint, c) <= c.max_sample_rate
}

/// The device has a name, and the name holds the session's pattern if
/// the session has one.
pub open spec fn device_fits(pattern: Option<String>, d: Device) -> bool {
    d.name is Some && (pattern is Some ==> contains(d.name->0@, pattern->0@))
}

pub open spec fn candidate(device: int, config: int, c: ConfigRange) -> Candidate {
    Candidate {
        device: device as usize,
        config: config as usize,
        channels: c.channels,
        sample_rate: c.min_sample_rate,
        sample_format: c.sample_format,
    }
}

/// The candidates among the first `upto` configurations of one device.
pub open spec fn config_candidates(
    hint: Option<u32>,
    device: int,
    configs: Seq<ConfigRange>,
    upto: int,
) -> Seq<Candidate>
    decreases upto,
{
    if upto <= 0 {
        Seq::empty()
    } else {
        let before = config_candidates(hint, device, configs, upto - 1);
        if config_fits(hint, configs[upto - 1]) {
            before.push(candidate(device, upto - 1, configs[upto - 1]))
        } else {
            before
        }
    }
}

/// The candidates of one device: none where the device does not fit or
/// its configurations could not be listed.
pub open spec fn device_candidates(s: Session, index: int, d: Device) -> Seq<Candidate> {
    if device_fits(s.input_device, d) && d.configs is Some {
        config_candidates(s.sample_rate, index, d.configs->0@, d.configs->0@.len() as int)
    } else {
        Seq::empty()
    }
}

/// The candidates among the first `upto` devices, device by device.
pub open spec fn candidates(s: Session, devices: Seq<Device>, upto: int) -> Seq<Candidate>
    decreases upto,
{
    if upto <= 0 {
        Seq::empty()
    } else {
        candidates(s, devices, upto - 1) + device_candidates(s, upto - 1, devices[upto - 1])
    }
}

/// What to open for the session: the first candidate, if its samples are
/// 32-bit floats and it has one or two channels.
pub open spec fn plan_of(s: Session, devices: Seq<Device>) -> Result<StreamPlan, Error> {
    let all = candidates(s, devices, devices.len() as int);
    if all.len() == 0 {
        Err(Error::NoSupportedConfigs)
    } else if all[0].sample_format != SampleFormat::F32 {
        Err(Error::InvalidSampleFormat(all[0].sample_format))
    } else if all[0].channels == 1 {
        Ok(
            StreamPlan {
                device: all[0].device,
                config: all[0].config,
                channels: Channels::Mono,
                sample_rate: all[0].sample_rate,
            },
        )
    } else if all[0].channels == 2 {
        Ok(
            StreamPlan {
                device: all[0].device,
                config: all[0].config,
                channels: Channels::Stereo,
                sample_rate: all[0].sample_rate,
            },
        )
    } else {
        Err(Error::InvalidChannelCount(all[0].channels))
    }
}

fn fits(hint: Option<u32>, c: &ConfigRange) -> (b: bool)
    ensures
        b == config_fits(hint, *c),
{
    let desired: u32 = match hint {
        Some(rate) => rate,
        None => if c.min_sample_rate >= 16000 {
            c.min_sample_rate
        } else {
            16000
        },
    };
    c.min_sample_rate <= desired && desired <= c.max_sample_rate
}

impl Session {
    fn takes(&self, d: &Device) -> (b: bool)
        ensures
            b == device_fits(self.input_device, *d),
    {
        match &d.name {
            None => false,
            Some(name) => match &self.input_device {
                None => true,
                Some(pattern) => {
                    let name = chars_of(name.as_str());
                    let pattern = chars_of(pattern.as_str());
                    find(name.as_slice(), pattern.as_slice())
                },
            },
        }
    }

    /// The devices and configurations that the session can record with,
    /// in the order of the devices and, within a device, of its
    /// configurations.
    pub fn supported_configs(&self, devices: &Vec<Device>) -> (out: Vec<Candidate>)
        ensures
            out@ == candidates(*self, devices@, devices@.len() as int),
    {
        let mut out: Vec<Candidate> = Vec::new();
        let mut i: usize = 0;
        while i < devices.len()
            invariant
                i <= devices.len(),
                out@ == candidates(*self, devices@, i as int),
            decreases devices.len() - i,
        {
            let ghost before = out@;
            let device = &devices[i];
            if self.takes(device) {
                match &device.configs {
                    None => {},
                    Some(configs) => {
                        let mut j: usize = 0;
                        while j < configs.len()
                            invariant
                                j <= configs.len(),
                                i < devices.len(),
                                out@ == before + config_candidates(
                                    self.sample_rate,
                                    i as int,
                                    configs@,
                                    j as int,
                                ),
                            decreases configs.len() - j,
                        {
                            if fits(self.sample_rate, &configs[j]) {
                                out.push(
                                    Candidate {
                                        device: i,
                                        config: j,
                                        channels: configs[j].channels,
                                        sample_rate: configs[j].min_sample_rate,
                                        sample_format: configs[j].sample_format,
                                    },
                                );
                            }
                            j += 1;
                        }
                    },
                }
            }
            i += 1;
        }
        out
    }

    /// Decides what to open for the session among the devices at hand.
    pub fn plan(&self, devices: &Vec<Device>) -> (r: Result<StreamPlan, Error>)
        ensures
            r == plan_of(*self, devices@),
    {
        let all = self.supported_configs(devices);
        if all.len() == 0 {
            return Err(Error::NoSupportedConfigs);
        }
        let first = all[0];
        match first.sample_format {
            SampleFormat::F32 => {},
            other => {
                return Err(Error::InvalidSampleFormat(other));
            },
        }
        if first.channels == 1 {
            Ok(
                StreamPlan {
                    device: first.device,
                    config: first.config,
                    channels: Channels::Mono,
                    sample_rate: first.sample_rate,
                },
            )
        } else if first.channels == 2 {
            Ok(
                StreamPlan {
                    device: first.device,
                    config: first.config,
                    channels: Channels::Stereo,
                    sample_rate: first.sample_rate,
                },
            )
        } else {
            Err(Error::InvalidChannelCount(first.channels))
        }
    }
}

impl SampleFormat {
    pub open spec fn name(self) -> Seq<char> {
        match self {
            SampleFormat::I8 => "I8"@,
            SampleFormat::I16 => "I16"@,
            SampleFormat::I32 => "I32"@,
            SampleFormat::I64 => "I64"@,
            SampleFormat::U8 => "U8"@,
            SampleFormat::U16 => "U16"@,
            SampleFormat::U32 => "U32"@,
            SampleFormat::U64 => "U64"@,
            SampleFormat::F32 => "F32"@,
            SampleFormat::F64 => "F64"@,
            SampleFormat::Other => "Other"@,
        }
    }

    pub fn to_text(&self) -> (s: String)
        ensures
            s@ == self.name(),
    {
        match self {
            SampleFormat::I8 => "I8".to_owned(),
            SampleFormat::I16 => "I16".to_owned(),
            SampleFormat::I32 => "I32".to_owned(),
            SampleFormat::I64 => "I64".to_owned(),
            SampleFormat::U8 => "U8".to_owned(),
            SampleFormat::U16 => "U16".to_owned(),
            SampleFormat::U32 => "U32".to_owned(),
            SampleFormat::U64 => "U64".to_owned(),
            SampleFormat::F32 => "F32".to_owned(),
            SampleFormat::F64 => "F64".to_owned(),
            SampleFormat::Other => "Other".to_owned(),
        }
    }
}

/// `head` followed by `tail`.
pub fn joined_text(head: &str, tail: &str) -> (s: String)
    ensures
        s@ == head@ + tail@,
{
    let mut s = String::from_str(head);
    s.append(tail);
    s
}

impl SessionError {
    pub open spec fn message_text(self) -> Seq<char> {
        match self {
            SessionError::Device(m) => "audio device error: "@ + m@,
            SessionError::Parameters(m) => "recording session parameters error: "@ + m@,
        }
    }

    /// The error in words.
    pub fn message(&self) -> (s: String)
        ensures
            s@ == self.message_text(),
    {
        match self {
            SessionError::Device(m) => joined_text("audio device error: ", m.as_str()),
            SessionError::Parameters(m) => joined_text(
                "recording session parameters error: ",
                m.as_str(),
            ),
        }
    }
}

impl Error {
    pub open spec fn message_text(self) -> Seq<char> {
        match self {
            Error::NoSupportedConfigs => "no supported configs found"@,
            Error::InvalidChannelCount(n) => "unsupported channel count: "@ + decimal(n as nat),
            Error::InvalidSampleFormat(f) => "invalid sample format: "@ + f.name(),
            Error::PlayStream(m) => "play stream error: "@ + m@,
            Error::Session(e) => "session error: "@ + e.message_text(),
            Error::Process(m) => "process error: "@ + m@,
            Error::Sync => "failed to join recording thread"@,
            Error::ThreadPanic(_) => "try to eliminate this"@,
        }
    }

    /// The error in words, as it goes out in an error response.
    pub fn message(&self) -> (s: String)
        ensures
            s@ == self.message_text(),
    {
        match self {
            Error::NoSupportedConfigs => "no supported configs found".to_owned(),
            Error::InvalidChannelCount(n) => joined_text(
                "unsupported channel count: ",
                decimal_string(*n as u128).as_str(),
            ),
            Error::InvalidSampleFormat(f) => joined_text(
                "invalid sample format: ",
                f.to_text().as_str(),
            ),
            Error::PlayStream(m) => joined_text("play stream error: ", m.as_str()),
            Error::Session(e) => joined_text("session error: ", e.message().as_str()),
            Error::Process(m) => joined_text("process error: ", m.as_str()),
            Error::Sync => "failed to join recording thread".to_owned(),
            Error::ThreadPanic(_) => "try to eliminate this".to_owned(),
        }
    }
}

} // verus!
