use vstd::prelude::*;

use super::message_maker::MessageMaker;
use super::signal_decoder::{detect, DetectionError, GoertzelBin};
use crate::dtmf::message::{all_valid, Message};
use crate::dtmf::signal::Signal;
use crate::framing::{
    encoded_len,
    first_unrepresentable,
    lemma_window_count_of_encoded,
    samples_in,
    window_count,
    window_start,
    ConfigurationError,
};

verus! {

/// Why a stream of samples gave no message.
#[derive(Clone, Copy, PartialEq, Eq, Debug)]
pub enum DecodeError {
    /// A burst of the message's signal duration does not resolve all tones
    /// at the sample rate. No window was measured.
    Configuration(ConfigurationError),
    /// A window gave no signal. No later window was measured.
    Detection(DetectionError),
}

/// Whether `bins` is something that `measure` may give for the window of the
/// burst `burst`: the window that begins where that burst begins and is one
/// signal window long.
pub open spec fn measured_at<F: Fn(usize, usize) -> Vec<GoertzelBin>>(
    measure: F,
    signal_window: int,
    silence_window: int,
    burst: int,
    bins: Vec<GoertzelBin>,
) -> bool {
    call_ensures(
        measure,
        (window_start(burst, signal_window, silence_window) as usize, signal_window as usize),
        bins,
    )
}

/// Whether each of `measurements` is what `measure` gave for the window of
/// its number.
pub open spec fn measured_in_turn<F: Fn(usize, usize) -> Vec<GoertzelBin>>(
    measure: F,
    signal_window: int,
    silence_window: int,
    measurements: Seq<Vec<GoertzelBin>>,
) -> bool {
    forall|k: int|
        0 <= k < measurements.len() ==> measured_at(
            measure,
            signal_window,
            silence_window,
            k,
            #[trigger] measurements[k],
        )
}

/// Whether `measure` is faithful to a stream that was laid out for
/// `signals`: whatever it gives for the window of a burst means the signal
/// of that burst.
pub open spec fn faithful_to<F: Fn(usize, usize) -> Vec<GoertzelBin>>(
    measure: F,
    signal_window: int,
    silence_window: int,
    signals: Seq<Signal>,
) -> bool {
    forall|burst: int, bins: Vec<GoertzelBin>|
        0 <= burst < signals.len() && #[trigger] measured_at(
            measure,
            signal_window,
            silence_window,
            burst,
            bins,
        ) ==> detect(bins@) == Ok::<Signal, DetectionError>(signals[burst])
}

/// Whether every one of `measurements` means a signal.
pub open spec fn all_detected(measurements: Seq<Vec<GoertzelBin>>) -> bool {
    forall|k: int| 0 <= k < measurements.len() ==> detect((#[trigger] measurements[k])@) is Ok
}

/// The signals that measurements mean, one for each.
pub open spec fn signals_detected(measurements: Seq<Vec<GoertzelBin>>) -> Seq<Signal>
    recommends
        all_detected(measurements),
{
    Seq::new(measurements.len(), |k: int| detect(measurements[k]@).unwrap())
}

/// Whether `measurements` account for the outcome of decoding a stream of
/// `total` samples: they were measured window by window, as many as the
/// stream holds full bursts if all of them mean a signal, and else up to
/// the first that means none.
pub open spec fn accounts_for<F: Fn(usize, usize) -> Vec<GoertzelBin>>(
    measure: F,
    total: int,
    signal_window: int,
    silence_window: int,
    measurements: Seq<Vec<GoertzelBin>>,
    failure: Option<DetectionError>,
) -> bool {
    &&& measured_in_turn(measure, signal_window, silence_window, measurements)
    &&& match failure {
        None => {
            &&& measurements.len() == window_count(total, signal_window, silence_window)
            &&& all_detected(measurements)
        },
        Some(error) => {
            &&& 1 <= measurements.len() <= window_count(total, signal_window, silence_window)
            &&& all_detected(measurements.drop_last())
            &&& detect(measurements.last()@) == Err::<Signal, DetectionError>(error)
        },
    }
}

/// Decodes the message of a stream of `total` samples at `sample_rate`
/// hertz and adds its signals to `message`, whose durations say how long
/// the tones and the gaps are.
///
/// The samples stay with the caller: `measure` is called with the first
/// sample and the length of each window in turn, first window first, and
/// hands back the bins that it measured there. Every window lies inside the
/// stream. The first window that gives no signal ends the decoding, and
/// the message is then left as it was.
pub fn decode_message<F: Fn(usize, usize) -> Vec<GoertzelBin>>(
    total: usize,
    measure: F,
    message: &mut Message,
    sample_rate: u32,
) -> (outcome: Result<(), DecodeError>)
    requires
        forall|start: usize, len: usize|
            start + len <= total ==> call_requires(measure, (start, len)),
    ensures
        final(message).spec_signal_duration() == old(message).spec_signal_duration(),
        final(message).spec_silence_duration() == old(message).spec_silence_duration(),
        outcome matches Err(DecodeError::Configuration(ConfigurationError::Unrepresentable(
            frequency,
        ))) ==> final(message)@ == old(message)@ && first_unrepresentable(
            samples_in(old(message).spec_signal_duration() as int, sample_rate as int),
            sample_rate as int,
        ) == Some(frequency),
        !(outcome matches Err(DecodeError::Configuration(_))) ==> first_unrepresentable(
            samples_in(old(message).spec_signal_duration() as int, sample_rate as int),
            sample_rate as int,
        ) is None,
        outcome matches Err(DecodeError::Detection(error)) ==> final(message)@ == old(message)@
            && exists|measurements: Seq<Vec<GoertzelBin>>| #[trigger]
            accounts_for(
                measure,
                total as int,
                samples_in(old(message).spec_signal_duration() as int, sample_rate as int),
                samples_in(old(message).spec_silence_duration() as int, sample_rate as int),
                measurements,
                Some(error),
            ),
        outcome is Ok ==> exists|measurements: Seq<Vec<GoertzelBin>>| #[trigger]
            accounts_for(
                measure,
                total as int,
                samples_in(old(message).spec_signal_duration() as int, sample_rate as int),
                samples_in(old(message).spec_silence_duration() as int, sample_rate as int),
                measurements,
                None,
            ) && final(message)@ == old(message)@ + signals_detected(measurements),
{
    let found = Message::new(message.signal_duration(), message.silence_duration());
    let mut maker = match MessageMaker::new(total, found, sample_rate) {
        Ok(maker) => maker,
        Err(error) => {
            return Err(DecodeError::Configuration(error));
        },
    };
    let ghost signal_window = maker.spec_framing().spec_signal_window() as int;
    let ghost silence_window = maker.spec_framing().spec_silence_window() as int;
    let ghost mut measurements: Seq<Vec<GoertzelBin>> = Seq::empty();
    loop
        invariant
            forall|start: usize, len: usize|
                start + len <= total ==> call_requires(measure, (start, len)),
            *message == *old(message),
            signal_window == samples_in(
                old(message).spec_signal_duration() as int,
                sample_rate as int,
            ),
            silence_window == samples_in(
                old(message).spec_silence_duration() as int,
                sample_rate as int,
            ),
            first_unrepresentable(signal_window, sample_rate as int) is None,
            maker.spec_total() == total,
            maker.spec_framing().spec_signal_window() == signal_window,
            maker.spec_framing().spec_silence_window() == silence_window,
            maker.spec_failure() is None,
            maker.spec_decoded() == measurements.len(),
            measurements.len() <= window_count(total as int, signal_window, silence_window),
            measured_in_turn(measure, signal_window, silence_window, measurements),
            all_detected(measurements),
            maker.spec_message()@ == signals_detected(measurements),
        ensures
            maker.spec_failure() is None,
            maker.spec_message()@ == signals_detected(measurements),
            accounts_for(
                measure,
                total as int,
                signal_window,
                silence_window,
                measurements,
                None,
            ),
        decreases window_count(total as int, signal_window, silence_window) - measurements.len(),
    {
        let (start, len) = match maker.next_window() {
            Some(window) => window,
            None => {
                break;
            },
        };
        let bins = measure(start, len);
        proof {
            measurements = measurements.push(bins);
        }
        match maker.push(bins.as_slice()) {
            Ok(()) => {},
            Err(error) => {
                assert(accounts_for(
                    measure,
                    total as int,
                    signal_window,
                    silence_window,
                    measurements,
                    Some(error),
                ));
                return Err(DecodeError::Detection(error));
            },
        }
    }
    let signals = match maker.finish() {
        Ok(found) => found.iter(),
        Err(error) => {
            return Err(DecodeError::Detection(error));
        },
    };
    let mut index: usize = 0;
    while index < signals.len()
        invariant
            index <= signals.len(),
            all_valid(signals@),
            message@ == old(message)@ + signals@.take(index as int),
            message.spec_signal_duration() == old(message).spec_signal_duration(),
            message.spec_silence_duration() == old(message).spec_silence_duration(),
        decreases signals.len() - index,
    {
        message.enqueue(signals[index]);
        index += 1;
    }
    Ok(())
}

/// Decoding gives back what was encoded: where the stream is as long as the
/// stream of `signals` and the measurement of each window means the signal
/// whose burst fills that window, no window fails and the signals found
/// are `signals`.
pub proof fn lemma_decodes_what_was_encoded<F: Fn(usize, usize) -> Vec<GoertzelBin>>(
    measure: F,
    signals: Seq<Signal>,
    signal_window: int,
    silence_window: int,
    measurements: Seq<Vec<GoertzelBin>>,
    failure: Option<DetectionError>,
)
    requires
        signal_window >= 1,
        silence_window >= 0,
        faithful_to(measure, signal_window, silence_window, signals),
        accounts_for(
            measure,
            encoded_len(signals.len() as int, signal_window, silence_window),
            signal_window,
            silence_window,
            measurements,
            failure,
        ),
    ensures
        failure is None,
        signals_detected(measurements) == signals,
{
    lemma_window_count_of_encoded(signals.len() as int, signal_window, silence_window);
    assert forall|k: int| 0 <= k < measurements.len() implies detect(
        (#[trigger] measurements[k])@,
    ) == Ok::<Signal, DetectionError>(signals[k]) by {
        assert(measured_at(measure, signal_window, silence_window, k, measurements[k]));
    }
    assert(signals_detected(measurements) =~= signals);
}

} // verus!
