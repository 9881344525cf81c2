use vstd::prelude::*;

use super::signal_decoder::{decode_signal, detect, DetectionError, GoertzelBin};
use crate::dtmf::message::Message;
use crate::framing::{
    first_unrepresentable,
    lemma_window_count_bounds,
    lemma_window_inside,
    samples_in,
    ConfigurationError,
    Framing,
};

verus! {

/// Makes a message out of a stream of samples, window by window.
///
/// The maker does not see the samples. It says which window of the stream
/// is to be measured next, takes the bins measured over that window, and
/// adds the key they mean to its message. The first window that means no
/// key ends the work: no later window is asked for and the message is
/// given up.
pub struct MessageMaker {
    message: Message,
    framing: Framing,
    total: usize,
    decoded: usize,
    failure: Option<DetectionError>,
}

impl MessageMaker {
    #[verifier::type_invariant]
    spec fn within_stream(self) -> bool {
        0 <= self.decoded <= self.framing.spec_window_count(self.total as int)
    }

    /// The message made so far.
    pub closed spec fn spec_message(&self) -> Message {
        self.message
    }

    /// The lengths of the bursts and gaps that the maker looks for.
    pub closed spec fn spec_framing(&self) -> Framing {
        self.framing
    }

    /// The length of the stream in samples.
    pub closed spec fn spec_total(&self) -> usize {
        self.total
    }

    /// The number of windows that gave a signal so far.
    pub closed spec fn spec_decoded(&self) -> usize {
        self.decoded
    }

    /// The error of the window that ended the work, if one did.
    pub closed spec fn spec_failure(&self) -> Option<DetectionError> {
        self.failure
    }

    /// The number of full bursts in the stream.
    pub open spec fn spec_windows(&self) -> int {
        self.spec_framing().spec_window_count(self.spec_total() as int)
    }

    /// Whether a window is still to be measured: none has failed and the
    /// stream holds a full burst that was not looked at.
    pub open spec fn spec_pending(&self) -> bool {
        self.spec_failure() is None && self.spec_decoded() < self.spec_windows()
    }

    /// Creates the maker for a stream of `total` samples at `sample_rate`
    /// hertz. The message gives the durations of tones and gaps, and the
    /// signals found are added behind those it already holds. Where a
    /// burst of the message's signal duration does not resolve one of the
    /// eight tones at that rate, the first such tone is named instead.
    pub fn new(total: usize, message: Message, sample_rate: u32) -> (maker: Result<
        MessageMaker,
        ConfigurationError,
    >)
        ensures
            match maker {
                Ok(m) => {
                    &&& first_unrepresentable(
                        samples_in(message.spec_signal_duration() as int, sample_rate as int),
                        sample_rate as int,
                    ) is None
                    &&& m.spec_message() == message
                    &&& m.spec_total() == total
                    &&& m.spec_decoded() == 0
                    &&& m.spec_failure() is None
                    &&& m.spec_framing().spec_sample_rate() == sample_rate
                    &&& m.spec_framing().spec_signal_window() == samples_in(
                        message.spec_signal_duration() as int,
                        sample_rate as int,
                    )
                    &&& m.spec_framing().spec_silence_window() == samples_in(
                        message.spec_silence_duration() as int,
                        sample_rate as int,
                    )
                },
                Err(ConfigurationError::Unrepresentable(frequency)) => first_unrepresentable(
                    samples_in(message.spec_signal_duration() as int, sample_rate as int),
                    sample_rate as int,
                ) == Some(frequency),
            },
    {
        let framing = match Framing::new(
            message.signal_duration(),
            message.silence_duration(),
            sample_rate,
        ) {
            Ok(framing) => framing,
            Err(error) => {
                return Err(error);
            },
        };
        let signal_window = framing.signal_window();
        let silence_window = framing.silence_window();
        proof {
            lemma_window_count_bounds(total as int, signal_window as int, silence_window as int);
        }
        Ok(MessageMaker { message, framing, total, decoded: 0, failure: None })
    }

    /// The message made so far.
    pub fn message(&self) -> (message: &Message)
        ensures
            *message == self.spec_message(),
    {
        &self.message
    }

    /// The window to measure next, as the index of its first sample and its
    /// length in samples; `None` when the stream holds no further full
    /// burst or a window has failed.
    pub fn next_window(&self) -> (window: Option<(usize, usize)>)
        ensures
            window is Some <==> self.spec_pending(),
            window matches Some((start, len)) ==> {
                &&& start == self.spec_framing().spec_window_start(self.spec_decoded() as int)
                &&& len == self.spec_framing().spec_signal_window()
                &&& start + len <= self.spec_total()
            },
    {
        proof {
            use_type_invariant(self);
        }
        if self.failure.is_some() {
            return None;
        }
        let windows = self.framing.window_count(self.total);
        if self.decoded >= windows {
            return None;
        }
        let signal_window = self.framing.signal_window();
        let silence_window = self.framing.silence_window();
        proof {
            lemma_window_inside(
                self.total as int,
                self.decoded as int,
                signal_window as int,
                silence_window as int,
            );
        }
        let period: u64 = signal_window + silence_window;
        let start: u64 = self.decoded as u64 * period;
        Some((start as usize, signal_window as usize))
    }

    /// Takes the bins measured over the window that `next_window` named and
    /// adds the signal they mean to the message. Bins that mean no signal
    /// end the work. When no window is to be measured the bins are left
    /// aside, and the answer is the error that ended the work, if any.
    pub fn push(&mut self, bins: &[GoertzelBin]) -> (outcome: Result<(), DetectionError>)
        ensures
            final(self).spec_framing() == old(self).spec_framing(),
            final(self).spec_total() == old(self).spec_total(),
            final(self).spec_message().spec_signal_duration() == old(
                self,
            ).spec_message().spec_signal_duration(),
            final(self).spec_message().spec_silence_duration() == old(
                self,
            ).spec_message().spec_silence_duration(),
            old(self).spec_pending() ==> match detect(bins@) {
                Ok(signal) => {
                    &&& outcome is Ok
                    &&& final(self).spec_message()@ == old(self).spec_message()@.push(signal)
                    &&& final(self).spec_decoded() == old(self).spec_decoded() + 1
                    &&& final(self).spec_failure() is None
                },
                Err(error) => {
                    &&& outcome == Err::<(), DetectionError>(error)
                    &&& final(self).spec_message()@ == old(self).spec_message()@
                    &&& final(self).spec_decoded() == old(self).spec_decoded()
                    &&& final(self).spec_failure() == Some(error)
                },
            },
            !old(self).spec_pending() ==> {
                &&& final(self).spec_message() == old(self).spec_message()
                &&& final(self).spec_decoded() == old(self).spec_decoded()
                &&& final(self).spec_failure() == old(self).spec_failure()
                &&& match old(self).spec_failure() {
                    Some(error) => outcome == Err::<(), DetectionError>(error),
                    None => outcome is Ok,
                }
            },
    {
        proof {
            use_type_invariant(&*self);
        }
        if let Some(error) = self.failure {
            return Err(error);
        }
        let windows = self.framing.window_count(self.total);
        if self.decoded >= windows {
            return Ok(());
        }
        match decode_signal(bins) {
            Ok(signal) => {
                let mut message = Message::default();
                std::mem::swap(&mut self.message, &mut message);
                message.enqueue(signal);
                std::mem::swap(&mut self.message, &mut message);
                self.decoded = self.decoded + 1;
                Ok(())
            },
            Err(error) => {
                self.failure = Some(error);
                Err(error)
            },
        }
    }

    /// Ends the work and hands the message out, or the error of the window
    /// that ended it.
    pub fn finish(self) -> (message: Result<Message, DetectionError>)
        ensures
            match message {
                Ok(m) => self.spec_failure() is None && m == self.spec_message(),
                Err(error) => self.spec_failure() == Some(error),
            },
    {
        match self.failure {
            None => Ok(self.message),
            Some(error) => Err(error),
        }
    }
}

} // verus!
