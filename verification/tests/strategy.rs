use voice::number::{FloatErrorKind, IntErrorKind};
use voice::whisper::transcription::{
    parse_strategy, Error, Job, Model, Patience, StrategyOpt, StrategyParseError,
};

fn patience_value(opt: &StrategyOpt) -> f32 {
    match opt {
        StrategyOpt::Beam { patience, .. } => patience.as_str().parse::<f32>().unwrap(),
        StrategyOpt::Greedy { .. } => panic!("a greedy strategy has no patience"),
    }
}

fn beam_size(opt: &StrategyOpt) -> i32 {
    match opt {
        StrategyOpt::Beam { beam_size, .. } => *beam_size,
        StrategyOpt::Greedy { .. } => panic!("a greedy strategy has no beam size"),
    }
}

fn check_parse_strategy() {
    assert_eq!(parse_strategy("greedy").unwrap(), StrategyOpt::Greedy { best_of: 2 });
    assert_eq!(parse_strategy("greedy:3").unwrap(), StrategyOpt::Greedy { best_of: 3 });

    let beam = parse_strategy("beam").unwrap();
    assert_eq!(beam_size(&beam), 5);
    assert_eq!(patience_value(&beam), 0.0);

    let beam = parse_strategy("beam:5").unwrap();
    assert_eq!(beam_size(&beam), 5);
    assert_eq!(patience_value(&beam), 0.0);

    let beam = parse_strategy("beam:5:0.5").unwrap();
    assert_eq!(beam_size(&beam), 5);
    assert_eq!(patience_value(&beam), 0.5);
    assert_eq!(
        beam,
        StrategyOpt::Beam { beam_size: 5, patience: Patience::parse("0.5").unwrap() }
    );
}

#[test]
fn whisper_test_parse_strategy() {
    check_parse_strategy();
}

#[test]
fn transcription_test_parse_strategy() {
    check_parse_strategy();
}

#[test]
fn zero_beams_are_refused_with_at_least_one() {
    let err = parse_strategy("beam:0").unwrap_err();
    assert_eq!(err, StrategyParseError::AtLeastOne("beam_size".to_string()));
    assert_eq!(err.message(), "beam_size must be at least 1");
    assert!(err.message().contains("at least 1"));
}

#[test]
fn zero_samples_are_refused_with_at_least_one() {
    let err = parse_strategy("greedy:0").unwrap_err();
    assert_eq!(err, StrategyParseError::AtLeastOne("best_of".to_string()));
    assert_eq!(err.message(), "best_of must be at least 1");
    assert_eq!(
        parse_strategy("greedy:-4").unwrap_err(),
        StrategyParseError::AtLeastOne("best_of".to_string())
    );
}

#[test]
fn unknown_kind_is_unsupported() {
    let err = parse_strategy("berm").unwrap_err();
    assert_eq!(err, StrategyParseError::Unsupported("berm".to_string()));
    assert_eq!(
        err.message(),
        "'berm' is not among the supported strategies: 'greedy', 'beam'"
    );
    assert_eq!(
        parse_strategy("").unwrap_err(),
        StrategyParseError::Unsupported(String::new())
    );
    assert_eq!(
        parse_strategy("Greedy").unwrap_err(),
        StrategyParseError::Unsupported("Greedy".to_string())
    );
}

#[test]
fn count_is_read_before_the_kind() {
    assert_eq!(
        parse_strategy("berm:x").unwrap_err(),
        StrategyParseError::ParseIntError(IntErrorKind::InvalidDigit)
    );
    assert_eq!(
        parse_strategy("greedy:").unwrap_err(),
        StrategyParseError::ParseIntError(IntErrorKind::Empty)
    );
    assert_eq!(
        parse_strategy("beam:99999999999").unwrap_err(),
        StrategyParseError::ParseIntError(IntErrorKind::PosOverflow)
    );
    assert_eq!(
        parse_strategy("beam:-99999999999").unwrap_err(),
        StrategyParseError::ParseIntError(IntErrorKind::NegOverflow)
    );
    assert!(parse_strategy("beam:+3").is_ok());
}

#[test]
fn bad_patience_is_a_float_error() {
    assert_eq!(
        parse_strategy("beam:5:abc").unwrap_err(),
        StrategyParseError::ParseFloatError(FloatErrorKind::Invalid)
    );
    assert_eq!(
        parse_strategy("beam:5:").unwrap_err(),
        StrategyParseError::ParseFloatError(FloatErrorKind::Empty)
    );
    assert_eq!(
        parse_strategy("beam:5:abc").unwrap_err().message(),
        "error parsing float"
    );
    assert_eq!(
        parse_strategy("beam:x").unwrap_err().message(),
        "error parsing integer"
    );
    // The count is judged before the patience is read.
    assert_eq!(
        parse_strategy("beam:0:abc").unwrap_err(),
        StrategyParseError::AtLeastOne("beam_size".to_string())
    );
}

#[test]
fn further_fields_are_ignored() {
    assert_eq!(parse_strategy("greedy:3:what:ever").unwrap(), StrategyOpt::Greedy { best_of: 3 });
    let beam = parse_strategy("beam:4:1.5:more").unwrap();
    assert_eq!(beam_size(&beam), 4);
    assert_eq!(patience_value(&beam), 1.5);
}

#[test]
fn written_strategies_read_back() {
    for n in [1, 2, 7, 10, 99, 1234, i32::MAX] {
        let greedy = StrategyOpt::Greedy { best_of: n };
        assert_eq!(parse_strategy(&greedy.to_text()).unwrap(), greedy);
        for p in ["0", "0.0", "0.5", "1e3", "+2.", ".25", "inf", "NaN", "12.5E-2"] {
            let beam = StrategyOpt::Beam { beam_size: n, patience: Patience::parse(p).unwrap() };
            assert_eq!(parse_strategy(&beam.to_text()).unwrap(), beam);
        }
    }
    assert_eq!(StrategyOpt::Greedy { best_of: 3 }.to_text(), "greedy:3");
    assert_eq!(
        StrategyOpt::Beam { beam_size: 5, patience: Patience::parse("0.5").unwrap() }.to_text(),
        "beam:5:0.5"
    );
    assert_eq!(StrategyOpt::Greedy { best_of: -12 }.to_text(), "greedy:-12");
}

#[test]
fn default_strategy_is_five_beams() {
    let d = StrategyOpt::default();
    assert_eq!(beam_size(&d), 5);
    assert_eq!(patience_value(&d), 0.0);
    assert_eq!(d.clone(), d);
    assert_eq!(Patience::zero().as_str(), "0.0");
}

#[test]
fn float_literals_are_those_that_std_reads() {
    let samples = [
        "", "0", "1", "1.", ".1", ".", "1.5", "-1.5", "+1.5", "1e5", "1E5", "1e", "1e+", "1e-3",
        "1.e3", ".e3", "e3", "inf", "INF", "-inf", "+Infinity", "infinity", "infinit", "nan",
        "NaN", "-nan", "nana", "1_000", "0x10", " 1", "1 ", "1..2", "1.2.3", "--1", "+-1", "+",
        "-", "1e5.5", "1e1e1", "١", "1f32", "12345678901234567890123456789", "0.000000000000001",
        "1e400", "i", "in", "e", "E5", "5E", ".5e-7", "9.", "+.5", "-.", "+e5",
    ];
    for s in samples {
        let ours = Patience::parse(s);
        let theirs = s.parse::<f32>();
        assert_eq!(ours.is_ok(), theirs.is_ok(), "on {s:?}");
        if let Ok(p) = ours {
            assert_eq!(p.as_str(), s);
        }
    }
    assert_eq!(Patience::parse("").unwrap_err(), FloatErrorKind::Empty);
    assert_eq!(Patience::parse("x").unwrap_err(), FloatErrorKind::Invalid);
}

#[test]
fn model_file_names() {
    assert_eq!(Model::Base.filename(), "ggml-base.en.bin");
    assert_eq!(Model::Small.filename(), "ggml-small.en.bin");
    assert_eq!(Model::Medium.filename(), "ggml-medium.bin");
    assert_eq!(Model::Large.filename(), "ggml-large-v3-turbo.bin");
    assert_eq!(Model::default(), Model::Base);
}

#[test]
fn job_builder_wants_every_field() {
    let job = Job::builder()
        .model(Model::Small)
        .strategy(StrategyOpt::Greedy { best_of: 2 })
        .audio(vec![0.0f32, 0.5, -0.5])
        .prompt(Some("hello".to_string()))
        .sample_rate(16000)
        .build()
        .unwrap();
    assert_eq!(job.model(), Model::Small);
    assert_eq!(job.strategy(), StrategyOpt::Greedy { best_of: 2 });
    assert_eq!(job.audio(), &[0.0f32, 0.5, -0.5]);
    assert_eq!(job.prompt(), Some("hello"));
    assert_eq!(job.sample_rate(), 16000);

    let params = job.inference_params();
    assert_eq!(params.strategy, StrategyOpt::Greedy { best_of: 2 });
    assert!(params.token_timestamps);
    assert_eq!(params.max_len, 1);
    assert!(params.split_on_word);
    assert_eq!(params.initial_prompt, Some("hello".to_string()));

    let missing = Job::<f32>::builder().build().unwrap_err();
    assert_eq!(missing, Error::JobBuild("model".to_string()));
    let missing = Job::<f32>::builder().model(Model::Base).build().unwrap_err();
    assert_eq!(missing, Error::JobBuild("audio".to_string()));
    let missing = Job::<f32>::builder().model(Model::Base).audio(vec![]).build().unwrap_err();
    assert_eq!(missing, Error::JobBuild("strategy".to_string()));
    let missing = Job::<f32>::builder()
        .model(Model::Base)
        .audio(vec![])
        .strategy(StrategyOpt::default())
        .build()
        .unwrap_err();
    assert_eq!(missing, Error::JobBuild("sample_rate".to_string()));
    let missing = Job::<f32>::builder()
        .model(Model::Base)
        .audio(vec![])
        .strategy(StrategyOpt::default())
        .sample_rate(1)
        .build()
        .unwrap_err();
    assert_eq!(missing, Error::JobBuild("prompt".to_string()));
}
