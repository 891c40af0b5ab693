use voice::audio::process::{collect, AudioMessage, Error as ProcessError};
use voice::audio::recording::{
    Candidate, Channels, ConfigRange, Device, Error, SampleFormat, SessionError, StreamPlan,
};
use voice::audio::Session;
use voice::whisper::transcription::Model;

fn range(channels: u16, min: u32, max: u32, format: SampleFormat) -> ConfigRange {
    ConfigRange { channels, min_sample_rate: min, max_sample_rate: max, sample_format: format }
}

fn device(name: &str, configs: Vec<ConfigRange>) -> Device {
    Device { name: Some(name.to_string()), configs: Some(configs) }
}

fn devices() -> Vec<Device> {
    vec![
        device("Built-in Microphone", vec![
            range(2, 44100, 48000, SampleFormat::F32),
            range(1, 8000, 96000, SampleFormat::F32),
        ]),
        Device { name: None, configs: Some(vec![range(1, 16000, 16000, SampleFormat::F32)]) },
        Device { name: Some("Broken".to_string()), configs: None },
        device("USB Audio", vec![
            range(1, 8000, 12000, SampleFormat::I16),
            range(2, 16000, 16000, SampleFormat::I16),
            range(6, 48000, 192000, SampleFormat::F32),
        ]),
    ]
}

#[test]
fn session_accessors() {
    let s = Session::new(
        Some("usb".to_string()),
        Some(44100),
        Some("prompt".to_string()),
        Some(Model::Medium),
    );
    assert_eq!(s.device_name(), Some("usb"));
    assert_eq!(s.sample_rate(), Some(44100));
    assert_eq!(s.prompt(), Some("prompt"));
    assert_eq!(s.model(), Some(Model::Medium));
    assert_eq!(s.clone(), s);
    let d = Session::default();
    assert_eq!(d, Session::new(None, None, None, None));
    assert_eq!(d.device_name(), None);
    assert_eq!(d.prompt(), None);
}

#[test]
fn candidates_without_a_hint() {
    // Looked for: the lowest rate of the range, but no less than 16 kHz.
    let all = Session::default().supported_configs(&devices());
    assert_eq!(
        all,
        vec![
            Candidate { device: 0, config: 0, channels: 2, sample_rate: 44100, sample_format: SampleFormat::F32 },
            Candidate { device: 0, config: 1, channels: 1, sample_rate: 8000, sample_format: SampleFormat::F32 },
            Candidate { device: 3, config: 1, channels: 2, sample_rate: 16000, sample_format: SampleFormat::I16 },
            Candidate { device: 3, config: 2, channels: 6, sample_rate: 48000, sample_format: SampleFormat::F32 },
        ]
    );
}

#[test]
fn candidates_with_a_hint_and_a_name() {
    let s = Session::new(None, Some(48000), None, None);
    let all = s.supported_configs(&devices());
    assert_eq!(
        all.iter().map(|c| (c.device, c.config)).collect::<Vec<_>>(),
        vec![(0, 0), (0, 1), (3, 2)]
    );
    let s = Session::new(Some("USB".to_string()), Some(10000), None, None);
    assert_eq!(
        s.supported_configs(&devices()),
        vec![Candidate { device: 3, config: 0, channels: 1, sample_rate: 8000, sample_format: SampleFormat::I16 }]
    );
    let s = Session::new(Some("usb".to_string()), None, None, None);
    assert_eq!(s.supported_configs(&devices()), vec![]);
    let s = Session::new(Some(String::new()), Some(16000), None, None);
    assert_eq!(s.supported_configs(&devices()).len(), 2);
}

#[test]
fn plans_and_their_failures() {
    assert_eq!(
        Session::default().plan(&devices()),
        Ok(StreamPlan { device: 0, config: 0, channels: Channels::Stereo, sample_rate: 44100 })
    );
    assert_eq!(
        Session::new(None, Some(8000), None, None).plan(&devices()),
        Ok(StreamPlan { device: 0, config: 1, channels: Channels::Mono, sample_rate: 8000 })
    );
    assert_eq!(
        Session::new(None, Some(99_999_999), None, None).plan(&devices()),
        Err(Error::NoSupportedConfigs)
    );
    assert_eq!(Session::default().plan(&vec![]), Err(Error::NoSupportedConfigs));
    assert_eq!(
        Session::new(Some("USB".to_string()), None, None, None).plan(&devices()),
        Err(Error::InvalidSampleFormat(SampleFormat::I16))
    );
    assert_eq!(
        Session::new(Some("USB".to_string()), Some(100_000), None, None).plan(&devices()),
        Err(Error::InvalidChannelCount(6))
    );
}

#[test]
fn recording_errors_in_words() {
    assert_eq!(Error::NoSupportedConfigs.message(), "no supported configs found");
    assert_eq!(Error::InvalidChannelCount(6).message(), "unsupported channel count: 6");
    assert_eq!(Error::InvalidSampleFormat(SampleFormat::I16).message(), "invalid sample format: I16");
    assert_eq!(Error::PlayStream("x".to_string()).message(), "play stream error: x");
    assert_eq!(
        Error::Session(SessionError::Device("gone".to_string())).message(),
        "session error: audio device error: gone"
    );
    assert_eq!(
        Error::Session(SessionError::Parameters("bad".to_string())).message(),
        "session error: recording session parameters error: bad"
    );
    assert_eq!(Error::Process("p".to_string()).message(), "process error: p");
    assert_eq!(Error::Sync.message(), "failed to join recording thread");
    assert_eq!(Error::ThreadPanic("why".to_string()).message(), "try to eliminate this");
    assert_eq!(SampleFormat::F32.to_text(), "F32");
}

#[test]
fn the_sink_gathers_samples_up_to_a_failure() {
    assert_eq!(collect::<f32>(vec![]), Ok(vec![]));
    assert_eq!(
        collect(vec![AudioMessage::Data(0.5f32), AudioMessage::Data(-1.0), AudioMessage::Data(0.0)]),
        Ok(vec![0.5f32, -1.0, 0.0])
    );
    assert_eq!(
        collect(vec![
            AudioMessage::Data(1i16),
            AudioMessage::Error(ProcessError::Send),
            AudioMessage::Data(2),
            AudioMessage::Error(ProcessError::BuildStream("late".to_string())),
        ]),
        Err(ProcessError::Send)
    );
}
