use vstd::arithmetic::div_mod::lemma_fundamental_div_mod_converse;
use vstd::pervasive::unreached;
use vstd::prelude::*;

use super::signal_encoder::{Frame, SignalEncoder};
use crate::dtmf::message::{all_valid, Message};
use crate::dtmf::signal::{lemma_frequencies_round_trip, Signal};
use crate::framing::{
    encoded_len,
    first_unrepresentable,
    lemma_encoded_len_increases,
    lemma_window_count_of_encoded,
    lemma_window_inside,
    samples_in,
    window_count,
    window_start,
    ConfigurationError,
    Framing,
};

verus! {

/// The tone pairs of a sequence of valid signals.
pub open spec fn tones_of(signals: Seq<Signal>) -> Seq<(u16, u16)>
    recommends
        all_valid(signals),
{
    Seq::new(signals.len(), |i: int| signals[i].spec_frequencies().unwrap())
}

/// The frame at `position` of the stream that lays out one burst for each
/// tone pair: within each period of a burst and a gap, the burst comes
/// first and counts its frames from zero, and the gap is silent.
pub open spec fn frame_at(
    tones: Seq<(u16, u16)>,
    signal_window: int,
    silence_window: int,
    position: int,
) -> Frame
    recommends
        signal_window >= 1,
        silence_window >= 0,
        0 <= position < encoded_len(tones.len() as int, signal_window, silence_window),
{
    let period = signal_window + silence_window;
    let burst = position / period;
    let offset = position % period;
    if offset < signal_window {
        Frame::Tone { low: tones[burst].0, high: tones[burst].1, index: offset as u64 }
    } else {
        Frame::Silence
    }
}

/// The whole stream for a sequence of tone pairs.
pub open spec fn frames_of(tones: Seq<(u16, u16)>, signal_window: int, silence_window: int) -> Seq<
    Frame,
> {
    Seq::new(
        encoded_len(tones.len() as int, signal_window, silence_window) as nat,
        |position: int| frame_at(tones, signal_window, silence_window, position),
    )
}

/// The frame at `offset` behind the sample where a decoder looks for the
/// burst `burst`.
pub open spec fn window_frame(
    tones: Seq<(u16, u16)>,
    signal_window: int,
    silence_window: int,
    burst: int,
    offset: int,
) -> Frame {
    frame_at(
        tones,
        signal_window,
        silence_window,
        window_start(burst, signal_window, silence_window) + offset,
    )
}

/// The silence that comes before the tone of the burst `burst`: none
/// before the first, a gap before every other.
pub open spec fn delay_of(burst: int, silence_window: int) -> int {
    if burst == 0 {
        0
    } else {
        silence_window
    }
}

/// Where an encoder stands in its stream: in which burst, how far into that
/// burst's delay and tone, and how many frames before the stream's end.
#[derive(Clone, Copy)]
struct Cursor {
    current_index: usize,
    offset: u64,
    size: usize,
}

/// An encoder that gives out the stream of a message frame by frame and
/// knows at every step how many frames are left.
pub struct MessageEncoder {
    signals: Vec<SignalEncoder>,
    framing: Framing,
    cursor: Cursor,
}

impl MessageEncoder {
    #[verifier::type_invariant]
    spec fn consistent(self) -> bool {
        let signal_window = self.framing.spec_signal_window() as int;
        let silence_window = self.framing.spec_silence_window() as int;
        let signals = self.signals@.len() as int;
        &&& self.cursor.current_index <= signals
        &&& encoded_len(signals, signal_window, silence_window) <= usize::MAX
        &&& self.cursor.current_index < signals ==> self.cursor.offset < delay_of(
            self.cursor.current_index as int,
            silence_window,
        ) + signal_window
        &&& self.cursor.current_index == signals ==> self.cursor.offset == 0
        &&& self.cursor.size == encoded_len(signals, signal_window, silence_window) - encoded_len(
            self.cursor.current_index as int,
            signal_window,
            silence_window,
        ) - self.cursor.offset
    }

    /// The tone pairs of the message, in order.
    pub closed spec fn spec_tones(&self) -> Seq<(u16, u16)> {
        Seq::new(self.signals@.len(), |i: int| self.signals@[i].spec_frequencies())
    }

    /// The lengths of the bursts and gaps.
    pub closed spec fn spec_framing(&self) -> Framing {
        self.framing
    }

    /// The number of frames given out so far.
    pub closed spec fn spec_position(&self) -> int {
        encoded_len(
            self.cursor.current_index as int,
            self.framing.spec_signal_window() as int,
            self.framing.spec_silence_window() as int,
        ) + self.cursor.offset
    }

    /// The whole stream of the message.
    pub open spec fn spec_frames(&self) -> Seq<Frame> {
        frames_of(
            self.spec_tones(),
            self.spec_framing().spec_signal_window() as int,
            self.spec_framing().spec_silence_window() as int,
        )
    }

    /// Creates the encoder of a message at a sample rate, or names the
    /// first tone that a burst of the message's signal duration does not
    /// resolve at that rate.
    ///
    /// The stream's length has to fit into a `usize`.
    pub fn new(message: &Message, sample_rate: u32) -> (encoder: Result<
        MessageEncoder,
        ConfigurationError,
    >)
        requires
            encoded_len(
                message@.len() as int,
                samples_in(message.spec_signal_duration() as int, sample_rate as int),
                samples_in(message.spec_silence_duration() as int, sample_rate as int),
            ) <= usize::MAX,
        ensures
            match encoder {
                Ok(e) => {
                    &&& first_unrepresentable(
                        samples_in(message.spec_signal_duration() as int, sample_rate as int),
                        sample_rate as int,
                    ) is None
                    &&& e.spec_tones() == tones_of(message@)
                    &&& e.spec_framing().spec_sample_rate() == sample_rate
                    &&& e.spec_framing().spec_signal_window() == samples_in(
                        message.spec_signal_duration() as int,
                        sample_rate as int,
                    )
                    &&& e.spec_framing().spec_silence_window() == samples_in(
                        message.spec_silence_duration() as int,
                        sample_rate as int,
                    )
                    &&& e.spec_position() == 0
                    &&& e.spec_frames().len() == encoded_len(
                        message@.len() as int,
                        samples_in(message.spec_signal_duration() as int, sample_rate as int),
                        samples_in(message.spec_silence_duration() as int, sample_rate as int),
                    )
                },
                Err(ConfigurationError::Unrepresentable(frequency)) => first_unrepresentable(
                    samples_in(message.spec_signal_duration() as int, sample_rate as int),
                    sample_rate as int,
                ) == Some(frequency),
            },
    {
        let framing = match Framing::new(
            message.signal_duration(),
            message.silence_duration(),
            sample_rate,
        ) {
            Ok(framing) => framing,
            Err(error) => {
                return Err(error);
            },
        };
        let queued = message.iter();
        let mut signals: Vec<SignalEncoder> = Vec::new();
        let mut index: usize = 0;
        while index < queued.len()
            invariant
                index <= queued.len(),
                all_valid(queued@),
                signals@.len() == index,
                forall|i: int|
                    0 <= i < index ==> Some((#[trigger] signals@[i]).spec_frequencies())
                        == queued@[i].spec_frequencies(),
            decreases queued.len() - index,
        {
            let tone = match SignalEncoder::new(queued[index], sample_rate) {
                Some(tone) => tone,
                None => {
                    unreached()
                },
            };
            signals.push(tone);
            index += 1;
        }
        let size = match framing.encoded_len(signals.len()) {
            Some(size) => size,
            None => unreached(),
        };
        let cursor = Cursor { current_index: 0, offset: 0, size };
        let encoder = MessageEncoder { signals, framing, cursor };
        Ok(encoder)
    }

    /// The next frame of the stream, `None` when the stream has ended.
    pub fn next(&mut self) -> (frame: Option<Frame>)
        ensures
            final(self).spec_tones() == old(self).spec_tones(),
            final(self).spec_framing() == old(self).spec_framing(),
            0 <= old(self).spec_position() <= old(self).spec_frames().len(),
            old(self).spec_position() < old(self).spec_frames().len() ==> frame == Some(
                old(self).spec_frames()[old(self).spec_position()],
            ) && final(self).spec_position() == old(self).spec_position() + 1,
            old(self).spec_position() == old(self).spec_frames().len() ==> frame is None
                && final(self).spec_position() == old(self).spec_position(),
    {
        proof {
            use_type_invariant(&*self);
        }
        let signal_window = self.framing.signal_window();
        let silence_window = self.framing.silence_window();
        let ghost signals = self.signals@.len() as int;
        let Cursor { current_index, offset, size } = self.cursor;
        let ghost burst = current_index as int;
        if current_index >= self.signals.len() {
            return None;
        }
        proof {
            lemma_burst_len(burst, signal_window as int, silence_window as int);
            lemma_frame_in_burst(
                self.spec_tones(),
                signal_window as int,
                silence_window as int,
                burst,
                offset as int,
            );
            if burst + 1 < signals {
                lemma_encoded_len_increases(
                    burst + 1,
                    signals,
                    signal_window as int,
                    silence_window as int,
                );
            }
        }
        let delay: u64 = if current_index == 0 {
            0
        } else {
            silence_window
        };
        let frame = if offset < delay {
            Frame::Silence
        } else {
            let (low, high) = self.signals[current_index].frequencies();
            Frame::Tone { low, high, index: offset - delay }
        };
        self.cursor = if offset + 1 == delay + signal_window {
            Cursor { current_index: current_index + 1, offset: 0, size: size - 1 }
        } else {
            Cursor { current_index, offset: offset + 1, size: size - 1 }
        };
        Some(frame)
    }

    /// The number of frames that are left, as a lower and an upper bound,
    /// which are the same.
    pub fn size_hint(&self) -> (bounds: (usize, Option<usize>))
        ensures
            bounds.0 == self.spec_frames().len() - self.spec_position(),
            bounds.1 == Some(bounds.0),
    {
        proof {
            use_type_invariant(self);
        }
        (self.cursor.size, Some(self.cursor.size))
    }

    /// The number of frames that are left.
    pub fn len(&self) -> (len: usize)
        ensures
            len == self.spec_frames().len() - self.spec_position(),
    {
        proof {
            use_type_invariant(self);
        }
        self.cursor.size
    }
}

/// Each burst adds its delay and its tone to the stream.
pub proof fn lemma_burst_len(burst: int, signal_window: int, silence_window: int)
    requires
        0 <= burst,
    ensures
        encoded_len(burst + 1, signal_window, silence_window) == encoded_len(
            burst,
            signal_window,
            silence_window,
        ) + delay_of(burst, silence_window) + signal_window,
{
    let period = signal_window + silence_window;
    if burst == 0 {
        assert((burst + 1 - 1) * period == 0) by (nonlinear_arith)
            requires
                burst == 0,
        ;
    } else {
        assert((burst + 1 - 1) * period == (burst - 1) * period + period) by (nonlinear_arith);
    }
}

/// Inside a burst the stream is silent for the burst's delay and then
/// sounds the burst's tone, counted from zero.
pub proof fn lemma_frame_in_burst(
    tones: Seq<(u16, u16)>,
    signal_window: int,
    silence_window: int,
    burst: int,
    offset: int,
)
    requires
        signal_window >= 1,
        silence_window >= 0,
        0 <= burst < tones.len(),
        0 <= offset < delay_of(burst, silence_window) + signal_window,
    ensures
        encoded_len(burst, signal_window, silence_window) + offset < encoded_len(
            burst + 1,
            signal_window,
            silence_window,
        ),
        frame_at(
            tones,
            signal_window,
            silence_window,
            encoded_len(burst, signal_window, silence_window) + offset,
        ) == if offset < delay_of(burst, silence_window) {
            Frame::Silence
        } else {
            Frame::Tone {
                low: tones[burst].0,
                high: tones[burst].1,
                index: (offset - delay_of(burst, silence_window)) as u64,
            }
        },
{
    let period = signal_window + silence_window;
    let position = encoded_len(burst, signal_window, silence_window) + offset;
    lemma_burst_len(burst, signal_window, silence_window);
    if burst == 0 {
        lemma_fundamental_div_mod_converse(position, period, 0, offset);
    } else if offset < silence_window {
        lemma_fundamental_div_mod_converse(position, period, burst - 1, signal_window + offset);
    } else {
        lemma_fundamental_div_mod_converse(position, period, burst, offset - silence_window);
    }
}

/// The burst `burst` of a stream begins at the sample where a decoder
/// looks for it, sounds the tone pair `burst` for the length of a signal
/// window, and is followed by silence until the next burst begins.
pub proof fn lemma_burst_frames(
    tones: Seq<(u16, u16)>,
    signal_window: int,
    silence_window: int,
    burst: int,
    offset: int,
)
    requires
        signal_window >= 1,
        silence_window >= 0,
        0 <= burst < tones.len(),
        0 <= offset < signal_window + silence_window,
    ensures
        frame_at(
            tones,
            signal_window,
            silence_window,
            window_start(burst, signal_window, silence_window) + offset,
        ) == if offset < signal_window {
            Frame::Tone { low: tones[burst].0, high: tones[burst].1, index: offset as u64 }
        } else {
            Frame::Silence
        },
{
    let period = signal_window + silence_window;
    lemma_fundamental_div_mod_converse(burst * period + offset, period, burst, offset);
}

/// What an encoder lays out, a decoder takes apart again: the stream of a
/// message holds as many full bursts as the message has signals, the
/// window in which a decoder looks for a burst holds the tone of the
/// signal of that number from its first frame to its last, and the tone
/// pair names the signal.
pub proof fn lemma_round_trip(signals: Seq<Signal>, signal_window: int, silence_window: int)
    requires
        all_valid(signals),
        signal_window >= 1,
        silence_window >= 0,
    ensures
        frames_of(tones_of(signals), signal_window, silence_window).len() == encoded_len(
            signals.len() as int,
            signal_window,
            silence_window,
        ),
        window_count(
            frames_of(tones_of(signals), signal_window, silence_window).len() as int,
            signal_window,
            silence_window,
        ) == signals.len(),
        forall|burst: int, offset: int|
            0 <= burst < signals.len() && 0 <= offset < signal_window ==> {
                &&& 0 <= window_start(burst, signal_window, silence_window) + offset < frames_of(
                    tones_of(signals),
                    signal_window,
                    silence_window,
                ).len()
                &&& #[trigger] window_frame(
                    tones_of(signals),
                    signal_window,
                    silence_window,
                    burst,
                    offset,
                ) == Frame::Tone {
                    low: signals[burst].spec_frequencies().unwrap().0,
                    high: signals[burst].spec_frequencies().unwrap().1,
                    index: offset as u64,
                }
            },
        forall|burst: int|
            0 <= burst < signals.len() ==> Signal::spec_from_frequencies(
                #[trigger] tones_of(signals)[burst],
            ) == Some(signals[burst]),
{
    let tones = tones_of(signals);
    let total = encoded_len(signals.len() as int, signal_window, silence_window);
    if signals.len() > 0 {
        lemma_encoded_len_increases(0, signals.len() as int, signal_window, silence_window);
    }
    lemma_window_count_of_encoded(signals.len() as int, signal_window, silence_window);
    assert forall|burst: int, offset: int|
        0 <= burst < signals.len() && 0 <= offset < signal_window implies {
        &&& 0 <= window_start(burst, signal_window, silence_window) + offset < total
        &&& #[trigger] window_frame(tones, signal_window, silence_window, burst, offset)
            == Frame::Tone {
            low: signals[burst].spec_frequencies().unwrap().0,
            high: signals[burst].spec_frequencies().unwrap().1,
            index: offset as u64,
        }
    } by {
        lemma_burst_frames(tones, signal_window, silence_window, burst, offset);
        lemma_window_inside(total, burst, signal_window, silence_window);
    }
    assert forall|burst: int| 0 <= burst < signals.len() implies Signal::spec_from_frequencies(
        #[trigger] tones[burst],
    ) == Some(signals[burst]) by {
        lemma_frequencies_round_trip(signals[burst]);
    }
}

} // verus!
