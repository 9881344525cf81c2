use vstd::prelude::*;

use super::goertzel::Goertzel_DTMF;
use crate::dtmf::signal::{high_group, low_group, Signal};

verus! {

/// Why a window of samples gave no signal.
#[derive(Clone, Copy, PartialEq, Eq, Debug, Structural)]
pub enum DetectionError {
    /// No tone of the low group or none of the high group was measured, so
    /// no pair of tones, and no key, stands out.
    NoMatchingSymbol,
}

/// The power that was measured at one frequency over one window of samples.
///
/// The power is a level on any scale that grows with the measured power:
/// the library compares levels and never computes with them.
#[derive(Clone, Copy, Debug)]
pub struct GoertzelBin {
    freq: u16,
    power: u64,
}

impl GoertzelBin {
    /// The frequency of the bin in hertz.
    pub closed spec fn spec_frequency(&self) -> u16 {
        self.freq
    }

    /// The power level of the bin.
    pub closed spec fn spec_power(&self) -> u64 {
        self.power
    }

    /// Creates the bin of a frequency with its measured power level.
    pub fn new(freq: u16, power: u64) -> (bin: GoertzelBin)
        ensures
            bin.spec_frequency() == freq,
            bin.spec_power() == power,
    {
        GoertzelBin { freq, power }
    }

    /// The power level of the bin.
    pub fn calculate(&self) -> (power: u64)
        ensures
            power == self.spec_power(),
    {
        self.power
    }

    /// The frequency of the bin.
    pub fn frequency(&self) -> (freq: u16)
        ensures
            freq == self.spec_frequency(),
    {
        self.freq
    }
}

/// Whether the bin at `index` is the first of the bins that was measured at
/// `frequency`.
pub open spec fn is_first_bin_of(bins: Seq<GoertzelBin>, frequency: u16, index: int) -> bool {
    &&& 0 <= index < bins.len()
    &&& bins[index].spec_frequency() == frequency
    &&& forall|j: int| 0 <= j < index ==> (#[trigger] bins[j]).spec_frequency() != frequency
}

/// The power level that was measured at `frequency`: that of the first bin
/// of this frequency, `None` if there is no such bin.
pub open spec fn measured(bins: Seq<GoertzelBin>, frequency: u16) -> Option<u64> {
    if exists|index: int| is_first_bin_of(bins, frequency, index) {
        Some(bins[choose|index: int| is_first_bin_of(bins, frequency, index)].spec_power())
    } else {
        None
    }
}

/// Whether the frequency at `index` of `group` is the strongest of the
/// group: it was measured, no frequency of the group was measured with more
/// power, and those listed before it were measured with less, so that of
/// equal frequencies the one listed first is taken.
pub open spec fn is_strongest(bins: Seq<GoertzelBin>, group: Seq<u16>, index: int) -> bool {
    &&& 0 <= index < group.len()
    &&& measured(bins, group[index]) is Some
    &&& forall|j: int|
        0 <= j < group.len() && measured(bins, #[trigger] group[j]) is Some ==> measured(
            bins,
            group[j],
        ).unwrap() <= measured(bins, group[index]).unwrap()
    &&& forall|j: int|
        0 <= j < index && measured(bins, #[trigger] group[j]) is Some ==> measured(
            bins,
            group[j],
        ).unwrap() < measured(bins, group[index]).unwrap()
}

/// The strongest frequency of a group, `None` if none of the group's
/// frequencies was measured.
pub open spec fn strongest(bins: Seq<GoertzelBin>, group: Seq<u16>) -> Option<u16> {
    if exists|index: int| is_strongest(bins, group, index) {
        Some(group[choose|index: int| is_strongest(bins, group, index)])
    } else {
        None
    }
}

/// What the measured bins of one window mean: the key of the strongest
/// low-group tone and the strongest high-group tone, and no key if no tone
/// of one of the groups was measured.
pub open spec fn detect(bins: Seq<GoertzelBin>) -> Result<Signal, DetectionError> {
    match (strongest(bins, low_group()), strongest(bins, high_group())) {
        (Some(low), Some(high)) => match Signal::spec_from_frequencies((low, high)) {
            Some(signal) => Ok(signal),
            None => Err(DetectionError::NoMatchingSymbol),
        },
        _ => Err(DetectionError::NoMatchingSymbol),
    }
}

/// Decodes a signal from the powers measured over one window of samples.
pub fn decode_signal(bins: &[GoertzelBin]) -> (signal: Result<Signal, DetectionError>)
    ensures
        signal == detect(bins@),
        signal is Ok <==> strongest(bins@, low_group()) is Some && strongest(
            bins@,
            high_group(),
        ) is Some,
        signal matches Ok(s) ==> s.is_valid(),
{
    match Goertzel_DTMF::new(bins) {
        Ok(detected) => Ok(detected.signal),
        Err(error) => Err(error),
    }
}

/// The first bin of a frequency gives the power measured at that frequency.
pub proof fn lemma_measured_is(bins: Seq<GoertzelBin>, frequency: u16, index: int)
    requires
        is_first_bin_of(bins, frequency, index),
    ensures
        measured(bins, frequency) == Some(bins[index].spec_power()),
{
}

/// At most one frequency of a group is its strongest.
pub proof fn lemma_strongest_unique(bins: Seq<GoertzelBin>, group: Seq<u16>, a: int, b: int)
    requires
        is_strongest(bins, group, a),
        is_strongest(bins, group, b),
    ensures
        a == b,
{
}

/// The strongest frequency of a group is the group's strongest.
pub proof fn lemma_strongest_is(bins: Seq<GoertzelBin>, group: Seq<u16>, index: int)
    requires
        is_strongest(bins, group, index),
    ensures
        strongest(bins, group) == Some(group[index]),
{
    let chosen = choose|i: int| is_strongest(bins, group, i);
    lemma_strongest_unique(bins, group, index, chosen);
}

/// A group has a strongest frequency exactly when one of its frequencies
/// was measured, and that frequency is then one of the group's.
pub proof fn lemma_strongest_exists(bins: Seq<GoertzelBin>, group: Seq<u16>)
    ensures
        strongest(bins, group) is Some <==> exists|i: int|
            0 <= i < group.len() && measured(bins, #[trigger] group[i]) is Some,
        strongest(bins, group) matches Some(frequency) ==> group.contains(frequency) && measured(
            bins,
            frequency,
        ) is Some,
{
    if exists|i: int| 0 <= i < group.len() && measured(bins, #[trigger] group[i]) is Some {
        let index = lemma_first_maximum(bins, group, group.len() as int);
        assert(is_strongest(bins, group, index));
    }
}

/// Among the first `end` frequencies of a group, if any was measured, one
/// is the first of the strongest.
proof fn lemma_first_maximum(bins: Seq<GoertzelBin>, group: Seq<u16>, end: int) -> (index: int)
    requires
        0 <= end <= group.len(),
        exists|i: int| 0 <= i < end && measured(bins, #[trigger] group[i]) is Some,
    ensures
        0 <= index < end,
        measured(bins, group[index]) is Some,
        forall|j: int|
            0 <= j < end && measured(bins, #[trigger] group[j]) is Some ==> measured(
                bins,
                group[j],
            ).unwrap() <= measured(bins, group[index]).unwrap(),
        forall|j: int|
            0 <= j < index && measured(bins, #[trigger] group[j]) is Some ==> measured(
                bins,
                group[j],
            ).unwrap() < measured(bins, group[index]).unwrap(),
    decreases end,
{
    let last = end - 1;
    if exists|i: int| 0 <= i < last && measured(bins, #[trigger] group[i]) is Some {
        let before = lemma_first_maximum(bins, group, last);
        if measured(bins, group[last]) is Some && measured(bins, group[last]).unwrap() > measured(
            bins,
            group[before],
        ).unwrap() {
            last
        } else {
            before
        }
    } else {
        last
    }
}

/// Every pair of a low-group and a high-group tone is the pair of a key,
/// so bins of both groups always give a signal.
pub proof fn lemma_detect_total(bins: Seq<GoertzelBin>)
    ensures
        detect(bins) is Ok <==> strongest(bins, low_group()) is Some && strongest(
            bins,
            high_group(),
        ) is Some,
        detect(bins) matches Ok(signal) ==> signal.is_valid() && signal.spec_frequencies() == Some(
            (strongest(bins, low_group()).unwrap(), strongest(bins, high_group()).unwrap()),
        ),
        detect(bins) matches Err(error) ==> error == DetectionError::NoMatchingSymbol,
{
    lemma_strongest_exists(bins, low_group());
    lemma_strongest_exists(bins, high_group());
    if let (Some(low), Some(high)) = (strongest(bins, low_group()), strongest(bins, high_group())) {
        crate::dtmf::signal::lemma_from_frequencies_total((low, high));
    }
}

/// Bins in which the two tones of a key stand out, each in its group, mean
/// that key.
pub proof fn lemma_detect_faithful(bins: Seq<GoertzelBin>, signal: Signal)
    requires
        signal.is_valid(),
        strongest(bins, low_group()) == Some(signal.spec_frequencies().unwrap().0),
        strongest(bins, high_group()) == Some(signal.spec_frequencies().unwrap().1),
    ensures
        detect(bins) == Ok::<Signal, DetectionError>(signal),
{
    crate::dtmf::signal::lemma_frequencies_round_trip(signal);
}

} // verus!
