use dtmf::encoder::{Frame, MessageEncoder, SignalEncoder};
use dtmf::framing::ConfigurationError;
use dtmf::{Message, Signal};

fn frames(encoder: &mut MessageEncoder) -> Vec<Frame> {
    let mut frames = Vec::new();
    while let Some(frame) = encoder.next() {
        frames.push(frame);
    }
    frames
}

#[test]
fn signal_encoder_wants_a_valid_signal() {
    assert!(SignalEncoder::new(Signal::Hash, 44_100).is_some(), "Encoder was none.");
    assert!(SignalEncoder::new(Signal::Digit(66), 44_100).is_none(), "Invalid encoder");
}

#[test]
fn signal_encoder_counts_the_frames_of_its_tone() {
    let mut encoder = SignalEncoder::new(Signal::Digit(0), 44_100).expect("a valid signal");
    assert_eq!(encoder.frequencies(), (941, 1336));
    assert_eq!(encoder.sample_rate(), 44_100);
    for index in 0..1000 {
        assert_eq!(encoder.next(), Some(Frame::Tone { low: 941, high: 1336, index }));
    }
    assert_eq!(encoder.frequencies(), (941, 1336));
}

#[test]
fn message_encoder_knows_its_length() {
    let mut message = Message::default();
    message.enqueue(Signal::A);
    message.enqueue(Signal::B);

    let mut encoder = MessageEncoder::new(&message, 48_000).expect("resolves all tones");
    let sample_num = encoder.len();
    assert_eq!(sample_num, 81_600);
    assert_eq!(encoder.size_hint(), (81_600, Some(81_600)));
    assert_eq!(frames(&mut encoder).len(), sample_num);
}

#[test]
fn message_encoder_counts_down_one_by_one() {
    let mut message = Message::new(1_000, 500);
    message.enqueue(Signal::Digit(1));
    message.enqueue(Signal::Digit(2));
    message.enqueue(Signal::Digit(3));
    let mut encoder = MessageEncoder::new(&message, 8_000).expect("resolves all tones");
    let mut left = 2 * 12 + 8;
    assert_eq!(encoder.len(), left);
    while encoder.next().is_some() {
        left -= 1;
        assert_eq!(encoder.len(), left);
        assert_eq!(encoder.size_hint(), (left, Some(left)));
    }
    assert_eq!(left, 0);
    assert_eq!(encoder.next(), None);
    assert_eq!(encoder.len(), 0);
}

#[test]
fn message_encoder_lays_out_bursts_and_gaps() {
    let mut message = Message::new(1_000, 500);
    message.enqueue(Signal::A);
    message.enqueue(Signal::Digit(0));
    message.enqueue(Signal::Hash);
    let mut encoder = MessageEncoder::new(&message, 4_000).expect("resolves all tones");

    let tone = |low, high| (0..4).map(move |index| Frame::Tone { low, high, index });
    let gap = || (0..2).map(|_| Frame::Silence);
    let expected: Vec<Frame> = tone(697, 1633)
        .chain(gap())
        .chain(tone(941, 1336))
        .chain(gap())
        .chain(tone(941, 1477))
        .collect();
    assert_eq!(frames(&mut encoder), expected);
}

#[test]
fn message_encoder_without_gaps() {
    let mut message = Message::new(500, 0);
    message.enqueue(Signal::Digit(5));
    message.enqueue(Signal::Digit(5));
    let mut encoder = MessageEncoder::new(&message, 8_000).expect("resolves all tones");
    let burst = (0..4).map(|index| Frame::Tone { low: 770, high: 1336, index });
    let expected: Vec<Frame> = burst.clone().chain(burst).collect();
    assert_eq!(frames(&mut encoder), expected);
}

#[test]
fn an_empty_message_gives_an_empty_stream() {
    let message = Message::default();
    let mut encoder = MessageEncoder::new(&message, 48_000).expect("resolves all tones");
    assert_eq!(encoder.len(), 0);
    assert_eq!(encoder.size_hint(), (0, Some(0)));
    assert_eq!(encoder.next(), None);
    assert_eq!(encoder.next(), None);
}

#[test]
fn message_encoder_names_the_tone_that_is_not_resolved() {
    let mut message = Message::new(1_000, 0);
    message.enqueue(Signal::A);
    assert_eq!(
        MessageEncoder::new(&message, 2_000).err(),
        Some(ConfigurationError::Unrepresentable(1_209))
    );
    assert_eq!(
        MessageEncoder::new(&Message::new(0, 0), 48_000).err(),
        Some(ConfigurationError::Unrepresentable(697))
    );
}
