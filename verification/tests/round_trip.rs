use dtmf::decoder::{decode_message, decode_signal, GoertzelBin, MessageMaker};
use dtmf::encoder::{Frame, MessageEncoder, SignalEncoder};
use dtmf::{Message, Signal};

const TONES: [u16; 8] = [697, 770, 852, 941, 1209, 1336, 1477, 1633];

/// The amplitude that a frame stands for.
fn amplitude(frame: Frame, sample_rate: u32) -> f64 {
    match frame {
        Frame::Silence => 0.0,
        Frame::Tone { low, high, index } => {
            let time = index as f64 / sample_rate as f64;
            (2.0 * std::f64::consts::PI * low as f64 * time).sin()
                + (2.0 * std::f64::consts::PI * high as f64 * time).sin()
        }
    }
}

/// The power of a window of samples at one frequency.
fn power(samples: &[f64], sample_rate: u32, freq: u16) -> f64 {
    let len = samples.len() as f64;
    let step = sample_rate as f64 / len;
    let step_normalized = 1.0 / len;
    let f = (freq as f64 / step) * step_normalized;
    let real = 2.0 * (2.0 * std::f64::consts::PI * f).cos();
    let mut coeff = (0.0, 0.0);
    for sample in samples {
        coeff = (sample + real * coeff.0 - coeff.1, coeff.0);
    }
    coeff.1 * coeff.1 + coeff.0 * coeff.0 - real * coeff.0 * coeff.1
}

/// A level that grows with the power.
fn level(power: f64) -> u64 {
    assert!(!power.is_nan());
    if power <= 0.0 {
        0
    } else {
        power.to_bits()
    }
}

/// The bins of the eight tones over a window of samples.
fn measure(samples: &[f64], sample_rate: u32) -> Vec<GoertzelBin> {
    TONES
        .iter()
        .map(|&freq| GoertzelBin::new(freq, level(power(samples, sample_rate, freq))))
        .collect()
}

fn encode(message: &Message, sample_rate: u32) -> Vec<f64> {
    let mut encoder = MessageEncoder::new(message, sample_rate).expect("resolves all tones");
    let mut samples = Vec::with_capacity(encoder.len());
    while let Some(frame) = encoder.next() {
        samples.push(amplitude(frame, sample_rate));
    }
    samples
}

fn decode(samples: &[f64], durations: Message, sample_rate: u32) -> Message {
    let mut message = durations;
    decode_message(
        samples.len(),
        |start, len| measure(&samples[start..start + len], sample_rate),
        &mut message,
        sample_rate,
    )
    .expect("a signal in every window");
    message
}

#[test]
fn a_message_survives_encoding_and_decoding() {
    let mut message = Message::default();
    message.enqueue(Signal::A);
    message.enqueue(Signal::B);

    let samples = encode(&message, 48_000);
    assert_eq!(samples.len(), 81_600);
    let decoded = decode(&samples, Message::default(), 48_000);
    assert_eq!(message, decoded);
}

#[test]
fn a_message_survives_encoding_and_decoding_window_by_window() {
    let mut message = Message::default();
    message.enqueue(Signal::A);
    message.enqueue(Signal::B);

    let samples = encode(&message, 48_000);
    let maker = MessageMaker::new(samples.len(), Message::default(), 48_000);
    let mut maker = maker.expect("resolves all tones");
    while let Some((start, len)) = maker.next_window() {
        let bins = measure(&samples[start..start + len], 48_000);
        maker.push(&bins).expect("a signal in every window");
    }
    assert_eq!(maker.finish(), Ok(message));
}

#[test]
fn every_key_survives_encoding_and_decoding() {
    let mut message = Message::new(40_000, 40_000);
    for signal in Signal::iter() {
        message.enqueue(signal);
    }
    for sample_rate in [8_000, 11_025, 44_100, 48_000, 92_000] {
        let samples = encode(&message, sample_rate);
        let decoded = decode(&samples, Message::new(40_000, 40_000), sample_rate);
        assert_eq!(message, decoded);
    }
}

#[test]
fn a_message_without_gaps_survives_encoding_and_decoding() {
    let mut message = Message::parse("0123456789ABCD*#0000####").expect("keys only");
    message.set_signal_duration(50_000);
    message.set_silence_duration(0);
    let samples = encode(&message, 8_000);
    assert_eq!(samples.len(), 24 * 400);
    let decoded = decode(&samples, Message::new(50_000, 0), 8_000);
    assert_eq!(message, decoded);
}

#[test]
fn an_empty_message_survives_encoding_and_decoding() {
    let samples = encode(&Message::default(), 44_100);
    assert!(samples.is_empty());
    assert_eq!(decode(&samples, Message::default(), 44_100), Message::default());
}

#[test]
fn a_stream_one_sample_short_loses_its_last_signal() {
    let mut message = Message::default();
    message.enqueue(Signal::A);
    message.enqueue(Signal::B);

    let samples = encode(&message, 48_000);
    let decoded = decode(&samples[..samples.len() - 1], Message::default(), 48_000);
    assert_eq!(decoded.iter(), vec![Signal::A]);
}

#[test]
fn samples_behind_the_last_window_are_dropped() {
    let mut message = Message::default();
    message.enqueue(Signal::Digit(4));
    let mut samples = encode(&message, 48_000);
    samples.extend(std::iter::repeat(0.25).take(14_400 + 33_599));
    let decoded = decode(&samples, Message::default(), 48_000);
    assert_eq!(decoded.iter(), vec![Signal::Digit(4)]);
}

#[test]
fn decode_signal_finds_the_key_of_a_tone() {
    for signal in Signal::iter() {
        let mut encoder = SignalEncoder::new(signal, 48_000).expect("a valid signal");
        let mut samples = Vec::new();
        for _ in 0..12_000 {
            samples.push(amplitude(encoder.next().expect("a frame"), 48_000));
        }
        assert_eq!(decode_signal(&measure(&samples, 48_000)), Ok(signal));
    }
}

#[test]
fn the_tones_of_a_key_stand_out() {
    let mut encoder = SignalEncoder::new(Signal::Digit(0), 44_100).expect("a valid signal");
    let mut samples = Vec::new();
    for _ in 0..4_410 {
        samples.push(amplitude(encoder.next().expect("a frame"), 44_100));
    }
    let low = power(&samples, 44_100, 941);
    let high = power(&samples, 44_100, 1336);
    for other in [697, 770, 852, 1209, 1477, 1633] {
        let weak = power(&samples, 44_100, other);
        assert!(low >= 10.0 * weak);
        assert!(high >= 10.0 * weak);
    }
    assert_eq!(decode_signal(&measure(&samples, 44_100)), Ok(Signal::Digit(0)));
}
