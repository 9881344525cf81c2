use vstd::prelude::*;

use super::signal_decoder::{
    detect,
    is_strongest,
    lemma_detect_total,
    lemma_measured_is,
    lemma_strongest_is,
    measured,
    strongest,
    DetectionError,
    GoertzelBin,
};
use crate::dtmf::signal::{high_group, low_group, Signal};

verus! {

/// What one window of samples was found to hold: the strongest tone of
/// each group and the key that the two tones belong to.
#[allow(non_camel_case_types)]
#[derive(Clone, Copy, Debug)]
pub struct Goertzel_DTMF {
    /// The strongest tone of the high group, in hertz.
    pub higher_f: u16,
    /// The strongest tone of the low group, in hertz.
    pub lower_f: u16,
    /// The key that sounds the two tones.
    pub signal: Signal,
}

impl Goertzel_DTMF {
    /// Finds the strongest tone of each group among the measured bins and
    /// the key of that pair. Where no tone of the low group or none of the
    /// high group was measured there is no pair and no key.
    pub fn new(bins: &[GoertzelBin]) -> (detected: Result<Goertzel_DTMF, DetectionError>)
        ensures
            match detected {
                Ok(d) => {
                    &&& strongest(bins@, low_group()) == Some(d.lower_f)
                    &&& strongest(bins@, high_group()) == Some(d.higher_f)
                    &&& d.signal.spec_frequencies() == Some((d.lower_f, d.higher_f))
                    &&& detect(bins@) == Ok::<Signal, DetectionError>(d.signal)
                },
                Err(error) => {
                    &&& error == DetectionError::NoMatchingSymbol
                    &&& detect(bins@) == Err::<Signal, DetectionError>(error)
                    &&& (strongest(bins@, low_group()) is None || strongest(bins@, high_group())
                        is None)
                },
            },
    {
        proof {
            lemma_detect_total(bins@);
        }
        let low: [u16; 4] = [697, 770, 852, 941];
        let high: [u16; 4] = [1209, 1336, 1477, 1633];
        let lower_f = match goertzel_filter(bins, low.as_slice()) {
            Some(frequency) => frequency,
            None => {
                return Err(DetectionError::NoMatchingSymbol);
            },
        };
        let higher_f = match goertzel_filter(bins, high.as_slice()) {
            Some(frequency) => frequency,
            None => {
                return Err(DetectionError::NoMatchingSymbol);
            },
        };
        match Signal::from_frequencies((lower_f, higher_f)) {
            Some(signal) => Ok(Goertzel_DTMF { higher_f, lower_f, signal }),
            None => Err(DetectionError::NoMatchingSymbol),
        }
    }
}

/// The power level that was measured at `frequency`: that of the first bin
/// of this frequency, `None` if there is no such bin.
pub fn power_at(bins: &[GoertzelBin], frequency: u16) -> (power: Option<u64>)
    ensures
        power == measured(bins@, frequency),
{
    let mut index: usize = 0;
    while index < bins.len()
        invariant
            index <= bins.len(),
            forall|j: int| 0 <= j < index ==> (#[trigger] bins@[j]).spec_frequency() != frequency,
        decreases bins.len() - index,
    {
        if bins[index].frequency() == frequency {
            proof {
                lemma_measured_is(bins@, frequency, index as int);
            }
            return Some(bins[index].calculate());
        }
        index += 1;
    }
    None
}

/// The frequency, among those of `dtmf_freq`, at which the most power was
/// measured; of frequencies with equal power the one listed first counts.
/// `None` if none of these frequencies was measured.
pub fn goertzel_filter(bins: &[GoertzelBin], dtmf_freq: &[u16]) -> (frequency: Option<u16>)
    ensures
        frequency == strongest(bins@, dtmf_freq@),
        frequency matches Some(f) ==> exists|index: int|
            is_strongest(bins@, dtmf_freq@, index) && dtmf_freq@[index] == f,
        frequency is None ==> forall|i: int|
            0 <= i < dtmf_freq@.len() ==> measured(bins@, #[trigger] dtmf_freq@[i]) is None,
{
    let mut best: Option<(usize, u64)> = None;
    let mut index: usize = 0;
    while index < dtmf_freq.len()
        invariant
            index <= dtmf_freq.len(),
            match best {
                None => forall|j: int|
                    0 <= j < index ==> measured(bins@, #[trigger] dtmf_freq@[j]) is None,
                Some((b, power)) => {
                    &&& b < index
                    &&& measured(bins@, dtmf_freq@[b as int]) == Some(power)
                    &&& forall|j: int|
                        0 <= j < index && measured(bins@, #[trigger] dtmf_freq@[j]) is Some
                            ==> measured(bins@, dtmf_freq@[j]).unwrap() <= power
                    &&& forall|j: int|
                        0 <= j < b && measured(bins@, #[trigger] dtmf_freq@[j]) is Some
                            ==> measured(bins@, dtmf_freq@[j]).unwrap() < power
                },
            },
        decreases dtmf_freq.len() - index,
    {
        if let Some(power) = power_at(bins, dtmf_freq[index]) {
            match best {
                None => {
                    best = Some((index, power));
                },
                Some((_, most)) => {
                    if power > most {
                        best = Some((index, power));
                    }
                },
            }
        }
        index += 1;
    }
    match best {
        Some((b, _)) => {
            proof {
                lemma_strongest_is(bins@, dtmf_freq@, b as int);
            }
            Some(dtmf_freq[b])
        },
        None => None,
    }
}

} // verus!
