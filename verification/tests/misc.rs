use voice::audio::controller::{Controller, Notifier, RecordState};
use voice::client::{route, App, Body, Commands, Outcome, RunningApp};
use voice::config::Config;
use voice::daemon::response::Response;
use voice::daemon::state::Mode;
use voice::daemon::DaemonInit;
use voice::number::IntErrorKind;
use voice::socket::{
    after_connection, frame_line, prepare_socket, Error, IoError, IoErrorKind, PathProbe,
    Preparation, ReadError, ThreadName, WriteError,
};
use voice::transport::{
    choose_transport, exit_status, parse_addr_option, AddressParseError, ServeDaemonOpts,
    Transport, TransportError,
};
use voice::audio::Session;
use voice::whisper::transcription::Model;

fn io(kind: IoErrorKind) -> IoError {
    IoError { kind, message: "io".to_string() }
}

#[test]
fn recoverable_failures() {
    let broken = Error::Write(WriteError::Io(io(IoErrorKind::BrokenPipe)));
    assert!(broken.is_broken_pipe());
    assert!(broken.recoverable());
    let parse = Error::Read(ReadError::Parse("bad json".to_string()));
    assert!(!parse.is_broken_pipe());
    assert!(parse.recoverable());
    for e in [
        Error::Write(WriteError::Io(io(IoErrorKind::Other))),
        Error::Write(WriteError::Json("x".to_string())),
        Error::Read(ReadError::Send),
        Error::Stream(io(IoErrorKind::BrokenPipe)),
        Error::NotASocket,
        Error::NonexistentSocket,
    ] {
        assert!(!e.is_broken_pipe());
        assert!(!e.recoverable());
    }
}

#[test]
fn the_listener_goes_on_after_recoverable_failures() {
    assert_eq!(after_connection(Ok(())), Ok(()));
    assert_eq!(after_connection(Err(Error::Read(ReadError::Parse("x".to_string())))), Ok(()));
    assert_eq!(
        after_connection(Err(Error::Write(WriteError::Io(io(IoErrorKind::BrokenPipe))))),
        Ok(())
    );
    assert_eq!(after_connection(Err(Error::Read(ReadError::Send))), Err(Error::Read(ReadError::Send)));
}

#[test]
fn the_socket_path_at_startup() {
    assert_eq!(prepare_socket(PathProbe::Socket), Ok(Preparation::Remove));
    assert_eq!(prepare_socket(PathProbe::Missing), Ok(Preparation::Nothing));
    assert_eq!(prepare_socket(PathProbe::NotSocket), Err(Error::NotASocket));
    assert_eq!(
        prepare_socket(PathProbe::Failed(io(IoErrorKind::Other))),
        Err(Error::Stream(io(IoErrorKind::Other)))
    );
}

#[test]
fn lines_and_thread_names() {
    assert_eq!(frame_line("{\"type\":\"nil\"}"), "{\"type\":\"nil\"},\n");
    assert_eq!(ThreadName::new(Some("write")).realize(), "thread named write");
    assert_eq!(ThreadName::new(None).realize(), "thread");
}

#[test]
fn addresses() {
    assert_eq!(parse_addr_option("localhost:8088"), Ok(("localhost".to_string(), 8088)));
    assert_eq!(parse_addr_option(":80"), Ok((String::new(), 80)));
    assert_eq!(parse_addr_option("h:1:2"), Ok(("h".to_string(), 1)));
    assert_eq!(parse_addr_option("localhost"), Err(AddressParseError::MissingPort));
    assert_eq!(parse_addr_option(""), Err(AddressParseError::MissingPort));
    assert_eq!(parse_addr_option("h:"), Err(AddressParseError::ParsePort(IntErrorKind::Empty)));
    assert_eq!(parse_addr_option("h:x"), Err(AddressParseError::ParsePort(IntErrorKind::InvalidDigit)));
    assert_eq!(parse_addr_option("h:65536"), Err(AddressParseError::ParsePort(IntErrorKind::PosOverflow)));
    assert_eq!(parse_addr_option("h:-1"), Err(AddressParseError::ParsePort(IntErrorKind::InvalidDigit)));
}

#[test]
fn exactly_one_transport() {
    assert_eq!(
        choose_transport(Some("/tmp/s".to_string()), None),
        Ok(Transport::Socket("/tmp/s".to_string()))
    );
    assert_eq!(
        choose_transport(None, Some(("localhost".to_string(), 8088))),
        Ok(Transport::Http("localhost".to_string(), 8088))
    );
    assert_eq!(
        choose_transport(Some("/tmp/s".to_string()), Some(("h".to_string(), 1))),
        Err(TransportError::Both)
    );
    assert_eq!(choose_transport(None, None), Err(TransportError::Neither));
    assert_eq!(exit_status(true), 1);
    assert_eq!(exit_status(false), 0);
    let opts = ServeDaemonOpts {
        delegate: DaemonInit::new(None, "/m".to_string(), None),
        serve: ("0.0.0.0".to_string(), 9000),
    };
    assert_eq!(opts.serve_addr(), ("0.0.0.0".to_string(), 9000));
}

#[test]
fn config_holds_the_model_directory() {
    let c = Config::new("/var/models".to_string());
    assert_eq!(c.model_dir(), "/var/models");
    assert_eq!(c.clone(), c);
}

#[test]
fn client_requests() {
    assert_eq!(route("localhost:8088", "/voice/stop"), "http://localhost:8088/voice/stop");
    let start = RunningApp::new(App {
        command: Commands::Start {
            input_device: Some("usb".to_string()),
            sample_rate: Some(48000),
            model: Some(Model::Small),
        },
        host: "h:1".to_string(),
    });
    let r = start.request();
    assert_eq!(r.url, "http://h:1/voice/start");
    assert_eq!(
        r.body,
        Body::Session(Session::new(Some("usb".to_string()), Some(48000), None, Some(Model::Small)))
    );
    let stop = RunningApp::new(App { command: Commands::Stop, host: "h".to_string() });
    assert_eq!(stop.request().url, "http://h/voice/stop");
    assert_eq!(stop.request().body, Body::Empty);
    let reset = RunningApp::new(App { command: Commands::Reset, host: "h".to_string() });
    assert_eq!(reset.request().url, "http://h/voice/reset");
    let mode = RunningApp::new(App {
        command: Commands::ChangeMode { mode: Mode::Standard },
        host: "h".to_string(),
    });
    assert_eq!(mode.request().url, "http://h/voice/mode");
    assert_eq!(mode.request().body, Body::Mode(Mode::Standard));

    assert_eq!(start.settle(Response::Ack(1)), Ok(Outcome::Done));
    assert_eq!(start.settle(Response::Nil), Err(Response::Nil));
    assert_eq!(
        stop.settle(Response::Transcription { content: Some("hi".to_string()), mode: Mode::Standard }),
        Ok(Outcome::Print("hi".to_string()))
    );
    assert_eq!(
        stop.settle(Response::Transcription { content: None, mode: Mode::Standard }),
        Ok(Outcome::Silence)
    );
    assert_eq!(stop.settle(Response::Ack(1)), Err(Response::Ack(1)));
    assert_eq!(reset.settle(Response::Exit(1)), Ok(Outcome::Done));
    assert_eq!(mode.settle(Response::Nil), Ok(Outcome::Done));
}

#[test]
fn a_notifier_lets_through_once_the_value_is_there() {
    let n: Notifier<u8> = Notifier::new();
    n.wait_until(&0);
    n.notify(5);
    n.wait_until(&5);
    let shared = n.clone();
    shared.notify(9);
    n.wait_until(&9);
}

#[test]
fn a_recording_goes_through_its_states() {
    assert_eq!(RecordState::default(), RecordState::Stopped);
    assert_eq!(RecordState::Stopped.next(), RecordState::Started);
    assert_eq!(RecordState::Started.next(), RecordState::Recording);
    assert_eq!(RecordState::Recording.next(), RecordState::Stopped);
    let c = Controller::new();
    c.wait_for(RecordState::Stopped);
    c.start();
    c.wait_for(RecordState::Started);
    let seen_by_thread = c.clone();
    seen_by_thread.recording();
    c.wait_for(RecordState::Recording);
    c.stop();
    seen_by_thread.wait_for(RecordState::Stopped);
}
