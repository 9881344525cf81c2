use std::collections::VecDeque;
use std::str::FromStr;
use vstd::prelude::*;
use vstd::string::StringExecFns;

use super::signal::{lemma_char_round_trip, Signal, SignalParsingError};

verus! {

/// The time each tone is held unless the caller says otherwise, in
/// microseconds.
pub const DEFAULT_SIGNAL_DURATION: u32 = 700_000;

/// The silence between two tones unless the caller says otherwise, in
/// microseconds.
pub const DEFAULT_SILENCE_DURATION: u32 = 300_000;

/// A queue of signals together with the time each tone is held and the
/// silence between two tones, both in whole microseconds.
///
/// A message holds valid signals only: whatever is read from it names a key.
#[derive(PartialEq, Eq, Debug)]
pub struct Message {
    signals: VecDeque<Signal>,
    signal_duration: u32,
    silence_duration: u32,
}

impl View for Message {
    type V = Seq<Signal>;

    /// The signals of the message, the oldest first.
    closed spec fn view(&self) -> Seq<Signal> {
        self.signals@
    }
}

/// Whether every signal of a sequence names a key.
pub open spec fn all_valid(signals: Seq<Signal>) -> bool {
    forall|i: int| 0 <= i < signals.len() ==> (#[trigger] signals[i]).is_valid()
}

/// Whether every character of a text stands for a signal.
pub open spec fn all_known(text: Seq<char>) -> bool {
    forall|i: int| 0 <= i < text.len() ==> Signal::spec_from_char(#[trigger] text[i]) is Ok
}

/// Whether the character at `index` is the first of a text that stands for
/// no signal.
pub open spec fn first_unknown_at(text: Seq<char>, index: int) -> bool {
    &&& 0 <= index < text.len()
    &&& Signal::spec_from_char(text[index]) is Err
    &&& all_known(text.take(index))
}

/// The signals that a text of known characters stands for.
pub open spec fn signals_of(text: Seq<char>) -> Seq<Signal>
    recommends
        all_known(text),
{
    Seq::new(text.len(), |i: int| Signal::spec_from_char(text[i]).unwrap())
}

/// The characters that are written for a sequence of valid signals.
pub open spec fn text_of(signals: Seq<Signal>) -> Seq<char>
    recommends
        all_valid(signals),
{
    Seq::new(signals.len(), |i: int| signals[i].spec_to_char())
}

impl Message {
    #[verifier::type_invariant]
    spec fn holds_valid_signals(self) -> bool {
        all_valid(self.signals@)
    }

    /// The time each tone is held, in microseconds.
    pub closed spec fn spec_signal_duration(&self) -> u32 {
        self.signal_duration
    }

    /// The silence between two tones, in microseconds.
    pub closed spec fn spec_silence_duration(&self) -> u32 {
        self.silence_duration
    }

    /// Creates an empty message with the given durations in microseconds.
    pub fn new(signal_duration: u32, silence_duration: u32) -> (message: Message)
        ensures
            message@ == Seq::<Signal>::empty(),
            message.spec_signal_duration() == signal_duration,
            message.spec_silence_duration() == silence_duration,
    {
        Message { signals: VecDeque::new(), signal_duration, silence_duration }
    }

    /// Creates a message with the default durations from a slice of signals,
    /// if all of them are valid.
    pub fn from_slice(signals: &[Signal]) -> (message: Option<Message>)
        ensures
            message is Some <==> all_valid(signals@),
            message matches Some(m) ==> m@ == signals@ && m.spec_signal_duration()
                == DEFAULT_SIGNAL_DURATION && m.spec_silence_duration()
                == DEFAULT_SILENCE_DURATION,
    {
        let mut message = Message::default();
        let mut index: usize = 0;
        while index < signals.len()
            invariant
                index <= signals.len(),
                message@ == signals@.take(index as int),
                all_valid(signals@.take(index as int)),
                message.spec_signal_duration() == DEFAULT_SIGNAL_DURATION,
                message.spec_silence_duration() == DEFAULT_SILENCE_DURATION,
            decreases signals.len() - index,
        {
            let accepted = message.enqueue(signals[index]);
            if !accepted {
                return None;
            }
            index += 1;
        }
        assert(signals@.take(index as int) =~= signals@);
        Some(message)
    }

    /// Sets the duration of each signal in microseconds.
    pub fn set_signal_duration(&mut self, duration: u32)
        ensures
            final(self)@ == old(self)@,
            final(self).spec_signal_duration() == duration,
            final(self).spec_silence_duration() == old(self).spec_silence_duration(),
    {
        proof {
            use_type_invariant(&*self);
        }
        self.signal_duration = duration;
    }

    /// Sets the duration of the silence between the signals in microseconds.
    pub fn set_silence_duration(&mut self, duration: u32)
        ensures
            final(self)@ == old(self)@,
            final(self).spec_signal_duration() == old(self).spec_signal_duration(),
            final(self).spec_silence_duration() == duration,
    {
        proof {
            use_type_invariant(&*self);
        }
        self.silence_duration = duration;
    }

    /// The duration of each signal in microseconds.
    pub fn signal_duration(&self) -> (duration: u32)
        ensures
            duration == self.spec_signal_duration(),
    {
        self.signal_duration
    }

    /// The duration of the silence between the signals in microseconds.
    pub fn silence_duration(&self) -> (duration: u32)
        ensures
            duration == self.spec_silence_duration(),
    {
        self.silence_duration
    }

    /// Adds a signal at the end of the queue if it is valid, and says
    /// whether it did. An invalid signal leaves the message as it was.
    pub fn enqueue(&mut self, signal: Signal) -> (accepted: bool)
        ensures
            accepted == signal.is_valid(),
            accepted ==> final(self)@ == old(self)@.push(signal),
            !accepted ==> final(self)@ == old(self)@,
            final(self).spec_signal_duration() == old(self).spec_signal_duration(),
            final(self).spec_silence_duration() == old(self).spec_silence_duration(),
    {
        proof {
            use_type_invariant(&*self);
        }
        match signal.frequencies() {
            Some(_) => {
                let mut signals: VecDeque<Signal> = VecDeque::new();
                std::mem::swap(&mut self.signals, &mut signals);
                signals.push_back(signal);
                std::mem::swap(&mut self.signals, &mut signals);
                true
            },
            None => false,
        }
    }

    /// Takes the first signal from the queue, `None` if the queue is empty.
    pub fn dequeue(&mut self) -> (signal: Option<Signal>)
        ensures
            old(self)@.len() == 0 ==> signal is None && final(self)@ == old(self)@,
            old(self)@.len() > 0 ==> signal == Some(old(self)@[0]) && final(self)@
                == old(self)@.drop_first(),
            signal matches Some(s) ==> s.is_valid(),
            final(self).spec_signal_duration() == old(self).spec_signal_duration(),
            final(self).spec_silence_duration() == old(self).spec_silence_duration(),
    {
        proof {
            use_type_invariant(&*self);
        }
        let mut signals: VecDeque<Signal> = VecDeque::new();
        std::mem::swap(&mut self.signals, &mut signals);
        let first = signals.pop_front();
        std::mem::swap(&mut self.signals, &mut signals);
        first
    }

    /// The number of signals in the queue.
    pub fn len(&self) -> (len: usize)
        ensures
            len == self@.len(),
    {
        self.signals.len()
    }

    /// The signals of the message in order, all of them valid.
    pub fn iter(&self) -> (signals: Vec<Signal>)
        ensures
            signals@ == self@,
            all_valid(signals@),
    {
        proof {
            use_type_invariant(self);
        }
        let mut signals: Vec<Signal> = Vec::new();
        let mut index: usize = 0;
        while index < self.signals.len()
            invariant
                index <= self.signals@.len(),
                signals@ == self.signals@.take(index as int),
            decreases self.signals@.len() - index,
        {
            signals.push(self.signals[index]);
            index += 1;
        }
        signals
    }
}

impl Message {
    /// Reads a message with the default durations from a text, one signal
    /// per character. The first character that stands for no signal ends
    /// the reading and is handed back.
    pub fn parse(text: &str) -> (message: Result<Message, char>)
        ensures
            message is Ok <==> all_known(text@),
            message matches Ok(m) ==> m@ == signals_of(text@) && m.spec_signal_duration()
                == DEFAULT_SIGNAL_DURATION && m.spec_silence_duration()
                == DEFAULT_SILENCE_DURATION,
            message matches Err(unknown) ==> exists|index: int|
                first_unknown_at(text@, index) && text@[index] == unknown,
    {
        let mut message = Message::default();
        for character in chars: text.chars()
            invariant
                chars.seq() == text@,
                all_known(text@.take(chars.index() as int)),
                message@ == signals_of(text@.take(chars.index() as int)),
                message.spec_signal_duration() == DEFAULT_SIGNAL_DURATION,
                message.spec_silence_duration() == DEFAULT_SILENCE_DURATION,
        {
            match Signal::from_char(character) {
                Ok(signal) => {
                    message.enqueue(signal);
                },
                Err(_) => {
                    return Err(character);
                },
            }
        }
        assert(text@.take(text@.len() as int) =~= text@);
        Ok(message)
    }

    /// Writes the message as text, one character per signal.
    pub fn to_string(&self) -> (text: String)
        ensures
            text@ == text_of(self@),
    {
        proof {
            use_type_invariant(self);
        }
        let mut text = String::new();
        let mut index: usize = 0;
        while index < self.signals.len()
            invariant
                index <= self.signals@.len(),
                all_valid(self.signals@),
                text@ == text_of(self.signals@.take(index as int)),
            decreases self.signals@.len() - index,
        {
            text.append(self.signals[index].as_str());
            index += 1;
        }
        text
    }
}

impl FromStr for Message {
    type Err = char;

    /// Reads a message as `Message::parse` does.
    fn from_str(text: &str) -> (message: Result<Message, char>)
        ensures
            message is Ok <==> all_known(text@),
            message matches Ok(m) ==> m@ == signals_of(text@) && m.spec_signal_duration()
                == DEFAULT_SIGNAL_DURATION && m.spec_silence_duration()
                == DEFAULT_SILENCE_DURATION,
            message matches Err(unknown) ==> exists|index: int|
                first_unknown_at(text@, index) && text@[index] == unknown,
    {
        Message::parse(text)
    }
}

impl Clone for Message {
    /// A copy of the message: the same signals and the same durations.
    fn clone(&self) -> (copy: Message)
        ensures
            copy@ == self@,
            copy.spec_signal_duration() == self.spec_signal_duration(),
            copy.spec_silence_duration() == self.spec_silence_duration(),
    {
        proof {
            use_type_invariant(self);
        }
        let signals = self.signals.clone();
        Message {
            signals,
            signal_duration: self.signal_duration,
            silence_duration: self.silence_duration,
        }
    }
}

impl Default for Message {
    /// An empty message with the default durations.
    fn default() -> (message: Message)
        ensures
            message@ == Seq::<Signal>::empty(),
            message.spec_signal_duration() == DEFAULT_SIGNAL_DURATION,
            message.spec_silence_duration() == DEFAULT_SILENCE_DURATION,
    {
        Message {
            signals: VecDeque::new(),
            signal_duration: DEFAULT_SIGNAL_DURATION,
            silence_duration: DEFAULT_SILENCE_DURATION,
        }
    }
}

/// Writing valid signals as text and reading the text again gives the
/// signals back.
pub proof fn lemma_text_round_trip(signals: Seq<Signal>)
    requires
        all_valid(signals),
    ensures
        all_known(text_of(signals)),
        signals_of(text_of(signals)) == signals,
{
    assert forall|i: int| 0 <= i < signals.len() implies Signal::spec_from_char(
        #[trigger] text_of(signals)[i],
    ) == Ok::<Signal, SignalParsingError>(signals[i]) by {
        lemma_char_round_trip(signals[i]);
    }
    assert(signals_of(text_of(signals)) =~= signals);
}

} // verus!
