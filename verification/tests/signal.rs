use dtmf::{Signal, SignalParsingError};

const KEYS: &str = "0123456789ABCD*#";

#[test]
fn from_char_reads_letters_and_digits() {
    assert_eq!(Signal::from_char('A'), Ok(Signal::A));
    assert_eq!(Signal::from_char('7'), Ok(Signal::Digit(7)));
    assert_eq!(Signal::from_char('0'), Ok(Signal::Digit(0)));
    assert_eq!(Signal::from_char('9'), Ok(Signal::Digit(9)));
    assert_eq!(Signal::from_char('*'), Ok(Signal::Asterisk));
    assert_eq!(Signal::from_char('#'), Ok(Signal::Hash));
}

#[test]
fn from_char_rejects_what_is_no_key() {
    assert_eq!(Signal::from_char('💣'), Err(SignalParsingError::UnknownSignal('💣')));
    assert_eq!(Signal::from_char('E'), Err(SignalParsingError::UnknownSignal('E')));
    assert_eq!(Signal::from_char('e'), Err(SignalParsingError::UnknownSignal('e')));
    assert_eq!(Signal::from_char(' '), Err(SignalParsingError::UnknownSignal(' ')));
    assert_eq!(Signal::from_char('/'), Err(SignalParsingError::UnknownSignal('/')));
    assert_eq!(Signal::from_char(':'), Err(SignalParsingError::UnknownSignal(':')));
}

#[test]
fn from_char_takes_lower_case_letters() {
    assert_eq!(Signal::from_char('a'), Ok(Signal::A));
    assert_eq!(Signal::from_char('b'), Ok(Signal::B));
    assert_eq!(Signal::from_char('c'), Ok(Signal::C));
    assert_eq!(Signal::from_char('d'), Ok(Signal::D));
}

#[test]
fn characters_survive_reading_and_writing() {
    for c in KEYS.chars() {
        let signal = Signal::from_char(c).expect("a key");
        assert_eq!(signal.to_char(), c);
    }
    for (lower, upper) in "abcd".chars().zip("ABCD".chars()) {
        assert_eq!(Signal::from_char(lower).expect("a key").to_char(), upper);
    }
}

#[test]
fn signals_survive_writing_and_reading() {
    for signal in Signal::iter() {
        assert_eq!(Signal::from_char(signal.to_char()), Ok(signal));
    }
}

#[test]
fn frequencies_of_a() {
    let (low, high) = Signal::A.frequencies().expect("Valid signal");
    assert_eq!(low, 697);
    assert_eq!(high, 1633);
}

#[test]
fn frequencies_follow_the_keypad() {
    let expected = [
        ('1', 697, 1209),
        ('2', 697, 1336),
        ('3', 697, 1477),
        ('A', 697, 1633),
        ('4', 770, 1209),
        ('5', 770, 1336),
        ('6', 770, 1477),
        ('B', 770, 1633),
        ('7', 852, 1209),
        ('8', 852, 1336),
        ('9', 852, 1477),
        ('C', 852, 1633),
        ('*', 941, 1209),
        ('0', 941, 1336),
        ('#', 941, 1477),
        ('D', 941, 1633),
    ];
    for (key, low, high) in expected {
        let signal = Signal::from_char(key).expect("a key");
        assert_eq!(signal.frequencies(), Some((low, high)));
        assert_eq!(Signal::from_frequencies((low, high)), Some(signal));
    }
}

#[test]
fn frequencies_of_an_invalid_digit() {
    assert_eq!(Signal::Digit(10).frequencies(), None);
    assert_eq!(Signal::Digit(42).frequencies(), None);
    assert_eq!(Signal::Digit(255).frequencies(), None);
}

#[test]
fn from_frequencies_inverts_frequencies() {
    for signal in Signal::iter() {
        let frequencies = signal.frequencies().expect("Valid signals");
        assert_eq!(Some(signal), Signal::from_frequencies(frequencies));
    }
}

#[test]
fn from_frequencies_rejects_other_pairs() {
    assert_eq!(Signal::from_frequencies((0, 0)), None);
    assert_eq!(Signal::from_frequencies((697, 1210)), None);
    assert_eq!(Signal::from_frequencies((698, 1209)), None);
    assert_eq!(Signal::from_frequencies((1209, 697)), None);
    assert_eq!(Signal::from_frequencies((697, 770)), None);
    assert_eq!(Signal::from_frequencies((1336, 1477)), None);
}

#[test]
fn iter_lists_the_sixteen_keys_once() {
    let all = Signal::iter();
    assert_eq!(all.len(), 16);
    for (index, signal) in all.iter().enumerate() {
        assert!(signal.frequencies().is_some());
        assert!(!all[..index].contains(signal));
    }
    let written: String = all.iter().map(|signal| signal.to_char()).collect();
    assert_eq!(written, KEYS);
}

#[test]
fn parse_reads_a_single_signal() {
    assert_eq!(Signal::parse("5"), Ok(Signal::Digit(5)));
    assert_eq!(Signal::parse("d"), Ok(Signal::D));
    assert_eq!("#".parse::<Signal>(), Ok(Signal::Hash));
}

#[test]
fn parse_tells_why_a_text_is_no_signal() {
    assert_eq!(Signal::parse(""), Err(SignalParsingError::TooShort));
    assert_eq!(Signal::parse("12"), Err(SignalParsingError::TooLong));
    assert_eq!(Signal::parse("x"), Err(SignalParsingError::UnknownSignal('x')));
    assert_eq!(Signal::parse("é"), Err(SignalParsingError::TooLong));
    assert_eq!("".parse::<Signal>(), Err(SignalParsingError::TooShort));
}

#[test]
fn signals_are_written_as_their_character() {
    assert_eq!(Signal::Asterisk.to_string(), "*");
    assert_eq!(Signal::Digit(3).to_string(), "3");
    assert_eq!(Signal::C.as_str(), "C");
    assert_eq!(Signal::Hash.to_char(), '#');
}
