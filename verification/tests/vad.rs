use voice::audio::vad::{count_voiced, rate_for, Config, Error, Rate, SampleSize};

#[test]
fn default_config_cuts_frames_of_twenty_milliseconds() {
    let config = Config::default();
    assert_eq!(config.buffer_size(), 320);
    assert_eq!(config.samples_per_frame(), 10);
    assert_eq!(SampleSize::Small.millis(), 10);
    assert_eq!(SampleSize::Medium.millis(), 20);
    assert_eq!(SampleSize::Large.millis(), 30);
}

#[test]
fn frames_are_cut_in_order() {
    let config = Config::default();
    let data: Vec<i16> = (0..1000).map(|i| i as i16).collect();
    let b = config.buffer_from(2, &data);
    assert_eq!(b.size(), 320);
    assert_eq!(b.index, 2);
    assert_eq!(b.as_ref(), &data[640..960]);
    assert_eq!(config.buffer_from(0, &data).as_ref(), &data[0..320]);
}

#[test]
fn detector_rates() {
    assert_eq!(rate_for(8000), Some(Rate::Rate8kHz));
    assert_eq!(rate_for(16000), Some(Rate::Rate16kHz));
    assert_eq!(rate_for(32000), Some(Rate::Rate32kHz));
    assert_eq!(rate_for(48000), Some(Rate::Rate48kHz));
    assert_eq!(rate_for(44100), None);
    assert_eq!(rate_for(0), None);
    assert_eq!(Error::Vad, Error::Vad);
}

#[test]
fn voiced_frames_are_counted_window_by_window() {
    let flags = vec![true, false, true, true, false, false, true];
    assert_eq!(count_voiced(&flags, 3), vec![2, 1, 1]);
    assert_eq!(count_voiced(&flags, 1), vec![1, 0, 1, 1, 0, 0, 1]);
    assert_eq!(count_voiced(&flags, 7), vec![4]);
    assert_eq!(count_voiced(&flags, 100), vec![4]);
    assert_eq!(count_voiced(&vec![], 4), vec![]);
    assert_eq!(count_voiced(&vec![true; 20], 10), vec![10, 10]);
}

#[test]
fn silence_holds_no_voice() {
    let config = Config::default();
    // One second and a little: 50 whole frames, 5 windows.
    let silence = vec![0i16; 16000 + 100];
    assert_eq!(config.detect_voice(&silence), Ok(vec![0; 5]));
    // 53 frames fill 6 windows, the last one in part.
    let silence = vec![0i16; 53 * 320];
    assert_eq!(config.detect_voice(&silence), Ok(vec![0; 6]));
    assert_eq!(config.detect_voice(&[]), Ok(vec![]));
    // Every frame has a length that the detector takes.
    assert!(config.detect_voice(&vec![1000i16; 3 * 320]).is_ok());
    assert_eq!(config.detect_voice(&[0i16; 319]), Ok(vec![]));
}

#[test]
fn counts_stay_within_the_window() {
    let config = Config::default();
    let mut noise = Vec::new();
    let mut x: u32 = 12345;
    for _ in 0..32000 {
        x = x.wrapping_mul(1_103_515_245).wrapping_add(12345);
        noise.push((x >> 16) as i16);
    }
    let counts = config.detect_voice(&noise).unwrap();
    assert_eq!(counts.len(), 10);
    assert!(counts.iter().all(|c| *c <= 10));
}
