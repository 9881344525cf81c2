use vstd::prelude::*;

use crate::dtmf::signal::Signal;

verus! {

/// One sample of a stream, described and not yet computed.
///
/// The library lays streams out; the amplitude that a frame stands for is
/// the caller's to compute.
#[derive(Clone, Copy, PartialEq, Eq, Debug, Structural)]
pub enum Frame {
    /// A sample of silence: the amplitude zero.
    Silence,
    /// The sample `index` of a tone pair, counted from the tone's start: at
    /// the sample rate `r` its amplitude is the sum of the two sines
    /// `sin(2π · low · index / r)` and `sin(2π · high · index / r)`.
    Tone { low: u16, high: u16, index: u64 },
}

/// The tone of one signal at one sample rate, given out frame by frame.
#[derive(Clone, Copy, PartialEq, Eq, Debug)]
pub struct SignalEncoder {
    low: u16,
    high: u16,
    sample_rate: u32,
    index: u64,
}

impl SignalEncoder {
    #[verifier::type_invariant]
    spec fn sounds_a_key(self) -> bool {
        Signal::spec_from_frequencies((self.low, self.high)) is Some
    }

    /// The lower and the upper frequency of the tone.
    pub closed spec fn spec_frequencies(&self) -> (u16, u16) {
        (self.low, self.high)
    }

    /// The sample rate in hertz.
    pub closed spec fn spec_sample_rate(&self) -> u32 {
        self.sample_rate
    }

    /// The number of frames given out so far.
    pub closed spec fn spec_index(&self) -> u64 {
        self.index
    }

    /// Creates the encoder of a signal's tone at a sample rate, `None` if
    /// the signal names no key.
    pub fn new(signal: Signal, sample_rate: u32) -> (encoder: Option<SignalEncoder>)
        ensures
            encoder is Some <==> signal.is_valid(),
            encoder matches Some(e) ==> {
                &&& Some(e.spec_frequencies()) == signal.spec_frequencies()
                &&& e.spec_sample_rate() == sample_rate
                &&& e.spec_index() == 0
            },
    {
        match signal.frequencies() {
            Some((low, high)) => {
                proof {
                    crate::dtmf::signal::lemma_frequencies_round_trip(signal);
                }
                Some(SignalEncoder { low, high, sample_rate, index: 0 })
            },
            None => None,
        }
    }

    /// The lower and the upper frequency of the tone, which are those of a
    /// key.
    pub fn frequencies(&self) -> (pair: (u16, u16))
        ensures
            pair == self.spec_frequencies(),
            Signal::spec_from_frequencies(pair) is Some,
    {
        proof {
            use_type_invariant(self);
        }
        (self.low, self.high)
    }

    /// The sample rate in hertz.
    pub fn sample_rate(&self) -> (rate: u32)
        ensures
            rate == self.spec_sample_rate(),
    {
        self.sample_rate
    }

    /// The next frame of the tone. The tone has no end of its own: only
    /// when the frame counter is used up does it stop.
    pub fn next(&mut self) -> (frame: Option<Frame>)
        ensures
            final(self).spec_frequencies() == old(self).spec_frequencies(),
            final(self).spec_sample_rate() == old(self).spec_sample_rate(),
            old(self).spec_index() < u64::MAX ==> final(self).spec_index() == old(
                self,
            ).spec_index() + 1 && frame == Some(
                Frame::Tone {
                    low: old(self).spec_frequencies().0,
                    high: old(self).spec_frequencies().1,
                    index: old(self).spec_index(),
                },
            ),
            old(self).spec_index() == u64::MAX ==> final(self).spec_index() == u64::MAX
                && frame is None,
    {
        proof {
            use_type_invariant(&*self);
        }
        if self.index < u64::MAX {
            let index = self.index;
            self.index = index + 1;
            Some(Frame::Tone { low: self.low, high: self.high, index })
        } else {
            None
        }
    }
}

} // verus!
