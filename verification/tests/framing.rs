use dtmf::framing::{
    resolves, samples_in_duration, valid_sample_rate, ConfigurationError, Framing,
    MAX_SAMPLE_RATE, MAX_WINDOW, MIN_SAMPLE_RATE,
};

#[test]
fn samples_of_the_default_durations() {
    assert_eq!(samples_in_duration(700_000, 48_000), 33_600);
    assert_eq!(samples_in_duration(300_000, 48_000), 14_400);
    assert_eq!(samples_in_duration(700_000, 44_100), 30_870);
    assert_eq!(samples_in_duration(100_000, 44_100), 4_410);
    assert_eq!(samples_in_duration(0, 48_000), 0);
    assert_eq!(samples_in_duration(700_000, 0), 0);
}

#[test]
fn samples_are_rounded_to_the_nearest() {
    // 1 µs at 499 999 Hz is just under half a sample, at 500 000 Hz half a sample.
    assert_eq!(samples_in_duration(1, 499_999), 0);
    assert_eq!(samples_in_duration(1, 500_000), 1);
    // 125 µs at 8 kHz is one sample; 187 µs is 1.496 samples, 188 µs is 1.504.
    assert_eq!(samples_in_duration(125, 8_000), 1);
    assert_eq!(samples_in_duration(187, 8_000), 1);
    assert_eq!(samples_in_duration(188, 8_000), 2);
}

#[test]
fn the_longest_window_fits() {
    assert_eq!(samples_in_duration(u32::MAX, u32::MAX), MAX_WINDOW);
    assert_eq!(MAX_WINDOW, 18_446_744_065_120);
}

#[test]
fn a_window_resolves_tones_up_to_its_last_bin() {
    // Two samples at 2 kHz: the bins 0 and 1, and a tone's place is f * 2 / 2000.
    assert!(resolves(697, 2, 2_000));
    assert!(resolves(941, 2, 2_000));
    assert!(resolves(1_000, 2, 2_000));
    assert!(!resolves(1_001, 2, 2_000));
    assert!(!resolves(1_209, 2, 2_000));
    assert!(!resolves(697, 1, 48_000));
    assert!(!resolves(697, 0, 48_000));
    assert!(!resolves(697, 100, 0));
    assert!(resolves(1_633, 33_600, 48_000));
}

#[test]
fn framing_of_the_default_durations() {
    let framing = Framing::new(700_000, 300_000, 48_000).expect("resolves all tones");
    assert_eq!(framing.sample_rate(), 48_000);
    assert_eq!(framing.signal_window(), 33_600);
    assert_eq!(framing.silence_window(), 14_400);
}

#[test]
fn framing_names_the_first_tone_that_is_not_resolved() {
    assert_eq!(
        Framing::new(700_000, 300_000, 0),
        Err(ConfigurationError::Unrepresentable(697))
    );
    assert_eq!(
        Framing::new(0, 300_000, 48_000),
        Err(ConfigurationError::Unrepresentable(697))
    );
    // One sample.
    assert_eq!(
        Framing::new(21, 0, 48_000),
        Err(ConfigurationError::Unrepresentable(697))
    );
    // Two samples at 2 kHz resolve the low group and nothing above.
    assert_eq!(
        Framing::new(1_000, 0, 2_000),
        Err(ConfigurationError::Unrepresentable(1_209))
    );
    // Two samples at 2.9 kHz resolve all but the highest two tones, at 3 kHz
    // all but the highest, at 4 kHz all.
    assert_eq!(
        Framing::new(700, 0, 2_900),
        Err(ConfigurationError::Unrepresentable(1_477))
    );
    assert_eq!(
        Framing::new(700, 0, 3_000),
        Err(ConfigurationError::Unrepresentable(1_633))
    );
    let framing = Framing::new(500, 0, 4_000).expect("resolves all tones");
    assert_eq!(framing.signal_window(), 2);
}

#[test]
fn a_gap_may_be_empty() {
    let framing = Framing::new(1_000, 0, 8_000).expect("resolves all tones");
    assert_eq!(framing.signal_window(), 8);
    assert_eq!(framing.silence_window(), 0);
    assert_eq!(framing.encoded_len(3), Some(24));
    assert_eq!(framing.window_count(24), 3);
    assert_eq!(framing.window_count(23), 2);
}

#[test]
fn length_of_an_encoded_stream() {
    let framing = Framing::new(700_000, 300_000, 48_000).expect("resolves all tones");
    assert_eq!(framing.encoded_len(0), Some(0));
    assert_eq!(framing.encoded_len(1), Some(33_600));
    assert_eq!(framing.encoded_len(2), Some(81_600));
    assert_eq!(framing.encoded_len(16), Some(15 * 48_000 + 33_600));
}

#[test]
fn a_length_beyond_usize_is_none() {
    let framing = Framing::new(700_000, 300_000, 48_000).expect("resolves all tones");
    assert_eq!(framing.encoded_len(usize::MAX), None);
    let most = (usize::MAX - 33_600) / 48_000 + 1;
    assert_eq!(framing.encoded_len(most), Some((most - 1) * 48_000 + 33_600));
    assert_eq!(framing.encoded_len(most + 1), None);
}

#[test]
fn an_empty_stream_holds_no_window() {
    let framing = Framing::new(700_000, 300_000, 48_000).expect("resolves all tones");
    assert_eq!(framing.window_count(0), 0);
}

#[test]
fn windows_are_counted_in_full() {
    let framing = Framing::new(700_000, 300_000, 48_000).expect("resolves all tones");
    assert_eq!(framing.window_count(33_599), 0);
    assert_eq!(framing.window_count(33_600), 1);
    assert_eq!(framing.window_count(48_000), 1);
    assert_eq!(framing.window_count(81_599), 1);
    assert_eq!(framing.window_count(81_600), 2);
    assert_eq!(framing.window_count(81_601), 2);
    assert_eq!(framing.window_count(129_600), 3);
}

#[test]
fn an_encoded_stream_holds_one_window_per_signal() {
    let framing = Framing::new(40_000, 25_000, 8_000).expect("resolves all tones");
    for signals in 0..50 {
        let total = framing.encoded_len(signals).expect("a short stream");
        assert_eq!(framing.window_count(total), signals);
        if signals > 0 {
            assert_eq!(framing.window_count(total - 1), signals - 1);
        }
    }
}

#[test]
fn sample_rates_from_8_to_92_kilohertz_are_valid() {
    assert!(!valid_sample_rate(0));
    assert!(!valid_sample_rate(7_999));
    assert!(valid_sample_rate(8_000));
    assert!(valid_sample_rate(44_100));
    assert!(valid_sample_rate(92_000));
    assert!(!valid_sample_rate(92_001));
    assert!(!valid_sample_rate(u32::MAX));
    assert_eq!((MIN_SAMPLE_RATE, MAX_SAMPLE_RATE), (8_000, 92_000));
}

#[test]
fn a_valid_sample_rate_resolves_all_tones_in_two_samples() {
    for sample_rate in [MIN_SAMPLE_RATE, 44_100, MAX_SAMPLE_RATE] {
        assert!(resolves(1_633, 2, sample_rate));
        assert!(resolves(1_633, 1_000_000, sample_rate));
        assert!(!resolves(697, 1, sample_rate));
    }
}
