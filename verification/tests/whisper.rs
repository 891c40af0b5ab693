use voice::timing::Timing;
use voice::whisper::transcription::Model;
use voice::whisper::{
    is_internal_token, judge, segment_timings, segments_in_range, timings, tokens_in_range,
    ModelCache, Token, WhisperError,
};

fn tok(text: &str, t0: i64, t1: i64) -> Token {
    Token::new(text.to_string(), t0, t1)
}

#[test]
fn internal_tokens() {
    for (text, expected) in [
        ("[_BEG_]", true), ("[_TT_50]", true), ("[_", true), ("[", false), ("[BLANK_AUDIO]", false),
        ("<|endoftext|>", true), ("<|en|>", true), ("<|>", true), ("<||>", true), ("<|", false),
        ("|>", false), ("<|x", false), ("x|>", false), ("", false), (" hello", false),
        (" [_x", false), ("<|a|> ", false), ("_[", false),
    ] {
        assert_eq!(is_internal_token(text), expected, "on {text:?}");
        let by_definition =
            text.starts_with("[_") || (text.starts_with("<|") && text.ends_with("|>"));
        assert_eq!(is_internal_token(text), by_definition, "on {text:?}");
    }
}

#[test]
fn ticks_are_ten_milliseconds() {
    let token = tok(" hello", 12, 57);
    assert!(token.in_range());
    let timing = token.timing();
    assert_eq!(timing.start(), 120);
    assert_eq!(timing.end(), 570);
    assert!(timing.start() <= timing.end());
    assert_eq!(timing.text(), " hello");
    assert_eq!(tok("x", 0, 0).timing(), Timing::new(0, 0, "x".to_string()));
    assert_eq!(tok("x", 429_496_729, 429_496_729).timing().end(), 4_294_967_290);
}

#[test]
fn ticks_out_of_range() {
    assert!(!tok("x", -1, 5).in_range());
    assert!(!tok("x", 1, -5).in_range());
    assert!(!tok("x", 0, 429_496_730).in_range());
    assert!(!tok("x", i64::MAX, 1).in_range());
    assert!(tokens_in_range(&vec![tok("[_BEG_]", -1, -1), tok(" a", 1, 2)]));
    assert!(!tokens_in_range(&vec![tok(" b", -1, -1), tok(" a", 1, 2)]));
    assert!(segments_in_range(&vec![vec![], vec![tok("<|x|>", -3, 0)]]));
    assert!(!segments_in_range(&vec![vec![tok("a", 0, 1)], vec![tok("b", -3, 0)]]));
}

#[test]
fn internal_tokens_get_no_timing() {
    let tokens = vec![
        tok("[_BEG_]", 0, 0),
        tok(" Hello", 0, 50),
        tok("<|endoftext|>", 50, 50),
        tok(" world", 50, 100),
        tok("[_TT_100]", 100, 100),
    ];
    assert_eq!(
        timings(&tokens),
        vec![Timing::new(0, 500, " Hello".to_string()), Timing::new(500, 1000, " world".to_string())]
    );
    assert_eq!(timings(&vec![]), vec![]);
}

#[test]
fn segments_are_walked_in_order() {
    let segments = vec![
        vec![tok("[_BEG_]", 0, 0), tok(" a", 0, 1)],
        vec![],
        vec![tok(" b", 1, 2), tok("[_x", 9, 9), tok(" c", 2, 3)],
    ];
    assert!(segments_in_range(&segments));
    assert_eq!(
        segment_timings(&segments),
        vec![
            Timing::new(0, 10, " a".to_string()),
            Timing::new(10, 20, " b".to_string()),
            Timing::new(20, 30, " c".to_string()),
        ]
    );
}

#[test]
fn a_run_is_judged_by_its_status() {
    assert_eq!(judge(Ok(0)), Ok(()));
    assert_eq!(judge(Ok(7)), Err(WhisperError::GenericError(7)));
    assert_eq!(judge(Ok(-1)), Err(WhisperError::GenericError(-1)));
    assert_eq!(
        judge(Err(WhisperError::Other("no model".to_string()))),
        Err(WhisperError::Other("no model".to_string()))
    );
}

#[test]
fn model_cache_keeps_one_context_for_each_model() {
    let mut cache: ModelCache<String> = ModelCache::new();
    for m in [Model::Base, Model::Small, Model::Medium, Model::Large] {
        assert!(!cache.contains(m));
        assert_eq!(cache.get(m), None);
    }
    assert_eq!(cache.insert(Model::Small, "small".to_string()), None);
    assert!(cache.contains(Model::Small));
    assert!(!cache.contains(Model::Base));
    assert_eq!(cache.get(Model::Small), Some(&"small".to_string()));
    assert_eq!(cache.insert(Model::Large, "large".to_string()), None);
    assert_eq!(cache.insert(Model::Small, "again".to_string()), Some("small".to_string()));
    assert_eq!(cache.get(Model::Small), Some(&"again".to_string()));
    assert_eq!(cache.get(Model::Large), Some(&"large".to_string()));
    assert_eq!(cache.get(Model::Medium), None);
}
