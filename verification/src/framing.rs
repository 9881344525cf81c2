use vstd::arithmetic::div_mod::{lemma_fundamental_div_mod, lemma_mod_bound};
use vstd::prelude::*;

verus! {

/// The largest window that two durations and a sample rate of 32 bits each
/// can give.
pub const MAX_WINDOW: u64 = 18_446_744_065_120;

/// The lowest sample rate, in hertz, that is taken for a stream.
pub const MIN_SAMPLE_RATE: u32 = 8_000;

/// The highest sample rate, in hertz, that is taken for a stream.
pub const MAX_SAMPLE_RATE: u32 = 92_000;

/// A tone cannot be told from its neighbours in a window of the chosen
/// length at the chosen sample rate.
#[derive(Clone, Copy, PartialEq, Eq, Debug, Structural)]
pub enum ConfigurationError {
    /// The first of the eight tones, in ascending order, whose place in the
    /// window's spectrum lies behind the window's last bin.
    Unrepresentable(u16),
}

/// The number of samples that `duration` microseconds take at `sample_rate`
/// hertz, rounded to the nearest whole sample, a half sample upwards.
pub open spec fn samples_in(duration: int, sample_rate: int) -> int {
    (duration * sample_rate + 500_000) / 1_000_000
}

/// Whether a window of `window` samples at `sample_rate` hertz resolves the
/// tone `frequency`: the tone's place `frequency * window / sample_rate` in
/// the window's spectrum is one of the bins `0` to `window - 1`.
pub open spec fn representable(frequency: int, window: int, sample_rate: int) -> bool {
    window >= 1 && frequency * window <= (window - 1) * sample_rate
}

/// Whether a stream at `sample_rate` hertz can carry the tone `frequency`:
/// the tone lies below half the sample rate.
pub open spec fn below_nyquist(frequency: int, sample_rate: int) -> bool {
    2 * frequency < sample_rate
}

/// Whether a sample rate lies in the range that is taken for a stream.
pub open spec fn spec_valid_sample_rate(sample_rate: u32) -> bool {
    MIN_SAMPLE_RATE <= sample_rate <= MAX_SAMPLE_RATE
}

/// The first of the eight tones, in ascending order, that a window does not
/// resolve, `None` if it resolves them all.
pub open spec fn first_unrepresentable(window: int, sample_rate: int) -> Option<u16> {
    if !representable(697, window, sample_rate) {
        Some(697u16)
    } else if !representable(770, window, sample_rate) {
        Some(770u16)
    } else if !representable(852, window, sample_rate) {
        Some(852u16)
    } else if !representable(941, window, sample_rate) {
        Some(941u16)
    } else if !representable(1209, window, sample_rate) {
        Some(1209u16)
    } else if !representable(1336, window, sample_rate) {
        Some(1336u16)
    } else if !representable(1477, window, sample_rate) {
        Some(1477u16)
    } else if !representable(1633, window, sample_rate) {
        Some(1633u16)
    } else {
        None
    }
}

/// The length in samples of a stream of `signals` tone bursts: each burst
/// lasts `signal_window` samples and `silence_window` samples of silence lie
/// between two bursts. A stream of no bursts is empty.
pub open spec fn encoded_len(signals: int, signal_window: int, silence_window: int) -> int {
    if signals <= 0 {
        0
    } else {
        (signals - 1) * (signal_window + silence_window) + signal_window
    }
}

/// The sample at which the burst `index` begins.
pub open spec fn window_start(index: int, signal_window: int, silence_window: int) -> int {
    index * (signal_window + silence_window)
}

/// The number of bursts that a stream of `total` samples holds in full: the
/// first needs `signal_window` samples, each further one a gap and a burst.
/// What is left behind the last full burst counts for nothing.
pub open spec fn window_count(total: int, signal_window: int, silence_window: int) -> int {
    if total < signal_window {
        0
    } else {
        (total - signal_window) / (signal_window + silence_window) + 1
    }
}

/// The lengths, in samples, of a tone burst and of the gap between two
/// bursts at one sample rate.
///
/// A framing exists only for a window that resolves all eight tones, so its
/// burst is at least two samples long.
#[derive(Clone, Copy, PartialEq, Eq, Debug)]
pub struct Framing {
    sample_rate: u32,
    signal_window: u64,
    silence_window: u64,
}

impl Framing {
    #[verifier::type_invariant]
    spec fn resolves_all_tones(self) -> bool {
        &&& first_unrepresentable(self.signal_window as int, self.sample_rate as int) is None
        &&& self.signal_window <= MAX_WINDOW
        &&& self.silence_window <= MAX_WINDOW
    }

    /// The sample rate in hertz.
    pub closed spec fn spec_sample_rate(&self) -> u32 {
        self.sample_rate
    }

    /// The length of a tone burst in samples.
    pub closed spec fn spec_signal_window(&self) -> u64 {
        self.signal_window
    }

    /// The length of the gap between two bursts in samples.
    pub closed spec fn spec_silence_window(&self) -> u64 {
        self.silence_window
    }

    /// The length of a stream of `signals` bursts in this framing.
    pub open spec fn spec_encoded_len(&self, signals: int) -> int {
        encoded_len(signals, self.spec_signal_window() as int, self.spec_silence_window() as int)
    }

    /// The number of full bursts in a stream of `total` samples.
    pub open spec fn spec_window_count(&self, total: int) -> int {
        window_count(total, self.spec_signal_window() as int, self.spec_silence_window() as int)
    }

    /// The sample at which the burst `index` begins.
    pub open spec fn spec_window_start(&self, index: int) -> int {
        window_start(index, self.spec_signal_window() as int, self.spec_silence_window() as int)
    }

    /// The framing for tones of `signal_duration` microseconds and gaps of
    /// `silence_duration` microseconds at `sample_rate` hertz, or the first
    /// tone that such a burst does not resolve.
    pub fn new(signal_duration: u32, silence_duration: u32, sample_rate: u32) -> (framing: Result<
        Framing,
        ConfigurationError,
    >)
        ensures
            match framing {
                Ok(f) => {
                    &&& first_unrepresentable(
                        samples_in(signal_duration as int, sample_rate as int),
                        sample_rate as int,
                    ) is None
                    &&& f.spec_sample_rate() == sample_rate
                    &&& f.spec_signal_window() == samples_in(
                        signal_duration as int,
                        sample_rate as int,
                    )
                    &&& f.spec_silence_window() == samples_in(
                        silence_duration as int,
                        sample_rate as int,
                    )
                    &&& f.spec_signal_window() >= 2
                },
                Err(ConfigurationError::Unrepresentable(frequency)) => first_unrepresentable(
                    samples_in(signal_duration as int, sample_rate as int),
                    sample_rate as int,
                ) == Some(frequency),
            },
    {
        let signal_window = samples_in_duration(signal_duration, sample_rate);
        let silence_window = samples_in_duration(silence_duration, sample_rate);
        proof {
            lemma_first_unrepresentable(signal_window as int, sample_rate as int);
        }
        if !resolves(697, signal_window, sample_rate) {
            Err(ConfigurationError::Unrepresentable(697))
        } else if !resolves(770, signal_window, sample_rate) {
            Err(ConfigurationError::Unrepresentable(770))
        } else if !resolves(852, signal_window, sample_rate) {
            Err(ConfigurationError::Unrepresentable(852))
        } else if !resolves(941, signal_window, sample_rate) {
            Err(ConfigurationError::Unrepresentable(941))
        } else if !resolves(1209, signal_window, sample_rate) {
            Err(ConfigurationError::Unrepresentable(1209))
        } else if !resolves(1336, signal_window, sample_rate) {
            Err(ConfigurationError::Unrepresentable(1336))
        } else if !resolves(1477, signal_window, sample_rate) {
            Err(ConfigurationError::Unrepresentable(1477))
        } else if !resolves(1633, signal_window, sample_rate) {
            Err(ConfigurationError::Unrepresentable(1633))
        } else {
            Ok(Framing { sample_rate, signal_window, silence_window })
        }
    }

    /// The sample rate in hertz.
    pub fn sample_rate(&self) -> (rate: u32)
        ensures
            rate == self.spec_sample_rate(),
    {
        self.sample_rate
    }

    /// The length of a tone burst in samples.
    pub fn signal_window(&self) -> (window: u64)
        ensures
            window == self.spec_signal_window(),
            2 <= window <= MAX_WINDOW,
            first_unrepresentable(window as int, self.spec_sample_rate() as int) is None,
    {
        proof {
            use_type_invariant(self);
            lemma_first_unrepresentable(self.signal_window as int, self.sample_rate as int);
        }
        self.signal_window
    }

    /// The length of the gap between two bursts in samples.
    pub fn silence_window(&self) -> (window: u64)
        ensures
            window == self.spec_silence_window(),
            window <= MAX_WINDOW,
    {
        proof {
            use_type_invariant(self);
        }
        self.silence_window
    }

    /// The length of a stream of `signals` bursts, `None` if that length is
    /// more than a `usize` holds.
    pub fn encoded_len(&self, signals: usize) -> (len: Option<usize>)
        ensures
            len is Some <==> self.spec_encoded_len(signals as int) <= usize::MAX,
            len matches Some(n) ==> n == self.spec_encoded_len(signals as int),
    {
        proof {
            use_type_invariant(self);
        }
        if signals == 0 {
            return Some(0);
        }
        let period: u128 = (self.signal_window + self.silence_window) as u128;
        let gaps: u128 = (signals - 1) as u128;
        assert(gaps * period <= 0xffff_ffff_ffff_ffff * (2 * MAX_WINDOW)) by (nonlinear_arith)
            requires
                0 <= gaps <= 0xffff_ffff_ffff_ffff,
                0 <= period <= 2 * MAX_WINDOW,
        ;
        let len: u128 = gaps * period + self.signal_window as u128;
        if len <= usize::MAX as u128 {
            Some(len as usize)
        } else {
            None
        }
    }

    /// The number of full bursts in a stream of `total` samples.
    pub fn window_count(&self, total: usize) -> (count: usize)
        ensures
            count == self.spec_window_count(total as int),
            self.spec_encoded_len(count as int) <= total < self.spec_encoded_len(count + 1),
    {
        proof {
            use_type_invariant(self);
            lemma_window_count_bounds(
                total as int,
                self.signal_window as int,
                self.silence_window as int,
            );
        }
        let total: u64 = total as u64;
        if total < self.signal_window {
            0
        } else {
            let period: u64 = self.signal_window + self.silence_window;
            let further: u64 = (total - self.signal_window) / period;
            (further + 1) as usize
        }
    }
}

/// Whether a sample rate lies in the range from 8 kHz to 92 kHz that is
/// taken for a stream.
pub fn valid_sample_rate(sample_rate: u32) -> (valid: bool)
    ensures
        valid == spec_valid_sample_rate(sample_rate),
{
    MIN_SAMPLE_RATE <= sample_rate && sample_rate <= MAX_SAMPLE_RATE
}

/// The number of samples in `duration` microseconds at `sample_rate` hertz,
/// rounded to the nearest whole sample.
pub fn samples_in_duration(duration: u32, sample_rate: u32) -> (samples: u64)
    ensures
        samples == samples_in(duration as int, sample_rate as int),
        samples <= MAX_WINDOW,
{
    let duration: u64 = duration as u64;
    let sample_rate: u64 = sample_rate as u64;
    assert(duration * sample_rate <= 0xffff_ffff * 0xffff_ffff) by (nonlinear_arith)
        requires
            0 <= duration <= 0xffff_ffff,
            0 <= sample_rate <= 0xffff_ffff,
    ;
    (duration * sample_rate + 500_000) / 1_000_000
}

/// Whether a window of `window` samples at `sample_rate` hertz resolves the
/// tone `frequency`.
pub fn resolves(frequency: u16, window: u64, sample_rate: u32) -> (resolved: bool)
    ensures
        resolved == representable(frequency as int, window as int, sample_rate as int),
{
    if window == 0 {
        return false;
    }
    let frequency: u128 = frequency as u128;
    let bins: u128 = window as u128;
    let sample_rate: u128 = sample_rate as u128;
    assert(frequency * bins <= 0xffff * 0xffff_ffff_ffff_ffff) by (nonlinear_arith)
        requires
            0 <= frequency <= 0xffff,
            0 <= bins <= 0xffff_ffff_ffff_ffff,
    ;
    assert((bins - 1) * sample_rate <= 0xffff_ffff_ffff_ffff * 0xffff_ffff) by (nonlinear_arith)
        requires
            1 <= bins <= 0xffff_ffff_ffff_ffff,
            0 <= sample_rate <= 0xffff_ffff,
    ;
    frequency * bins <= (bins - 1) * sample_rate
}

/// A stream at a valid sample rate carries all eight tones, and its bursts
/// of two samples or more resolve them.
pub proof fn lemma_valid_sample_rate(sample_rate: u32, window: int)
    requires
        spec_valid_sample_rate(sample_rate),
    ensures
        below_nyquist(1633, sample_rate as int),
        window >= 2 ==> first_unrepresentable(window, sample_rate as int) is None,
{
    if window >= 2 {
        assert(1633 * window <= (window - 1) * sample_rate) by (nonlinear_arith)
            requires
                window >= 2,
                sample_rate >= 8_000,
        ;
        lemma_first_unrepresentable(window, sample_rate as int);
    }
}

/// A window that resolves a tone resolves every lower tone, and a window
/// that resolves any tone holds at least two samples.
pub proof fn lemma_representable_lower(lower: int, higher: int, window: int, sample_rate: int)
    requires
        0 < lower <= higher,
        representable(higher, window, sample_rate),
    ensures
        representable(lower, window, sample_rate),
        window >= 2,
        sample_rate > 0,
{
    assert(lower * window <= higher * window) by (nonlinear_arith)
        requires
            lower <= higher,
            window >= 1,
    ;
    assert(higher * window > 0) by (nonlinear_arith)
        requires
            higher > 0,
            window >= 1,
    ;
    assert(window >= 2 && sample_rate > 0) by (nonlinear_arith)
        requires
            (window - 1) * sample_rate > 0,
            window >= 1,
    ;
}

/// A window resolves all eight tones exactly when it resolves the highest.
pub proof fn lemma_first_unrepresentable(window: int, sample_rate: int)
    ensures
        first_unrepresentable(window, sample_rate) is None <==> representable(
            1633,
            window,
            sample_rate,
        ),
        first_unrepresentable(window, sample_rate) is None ==> window >= 2 && sample_rate > 0,
{
    if representable(1633, window, sample_rate) {
        lemma_representable_lower(697, 1633, window, sample_rate);
        lemma_representable_lower(770, 1633, window, sample_rate);
        lemma_representable_lower(852, 1633, window, sample_rate);
        lemma_representable_lower(941, 1633, window, sample_rate);
        lemma_representable_lower(1209, 1633, window, sample_rate);
        lemma_representable_lower(1336, 1633, window, sample_rate);
        lemma_representable_lower(1477, 1633, window, sample_rate);
    }
}

/// A longer message gives a longer stream.
pub proof fn lemma_encoded_len_increases(
    fewer: int,
    more: int,
    signal_window: int,
    silence_window: int,
)
    requires
        0 <= fewer < more,
        signal_window >= 1,
        silence_window >= 0,
    ensures
        encoded_len(fewer, signal_window, silence_window) < encoded_len(
            more,
            signal_window,
            silence_window,
        ),
{
    let period = signal_window + silence_window;
    if fewer > 0 {
        assert((fewer - 1) * period < (more - 1) * period) by (nonlinear_arith)
            requires
                fewer < more,
                period >= 1,
        ;
    } else {
        assert((more - 1) * period >= 0) by (nonlinear_arith)
            requires
                more >= 1,
                period >= 1,
        ;
    }
}

/// The bursts counted in a stream fit into it, and one burst more does not.
pub proof fn lemma_window_count_bounds(total: int, signal_window: int, silence_window: int)
    requires
        0 <= total,
        signal_window >= 1,
        silence_window >= 0,
    ensures
        0 <= window_count(total, signal_window, silence_window),
        encoded_len(
            window_count(total, signal_window, silence_window),
            signal_window,
            silence_window,
        ) <= total,
        total < encoded_len(
            window_count(total, signal_window, silence_window) + 1,
            signal_window,
            silence_window,
        ),
{
    let period = signal_window + silence_window;
    if total >= signal_window {
        let rest = total - signal_window;
        let further = rest / period;
        lemma_fundamental_div_mod(rest, period);
        lemma_mod_bound(rest, period);
        assert((further + 1) * period == further * period + period) by (nonlinear_arith);
    }
}

/// The count of full bursts is the one number of bursts whose stream fits
/// into the samples at hand while a stream of one burst more does not.
pub proof fn lemma_window_count_unique(
    total: int,
    signals: int,
    signal_window: int,
    silence_window: int,
)
    requires
        0 <= signals,
        signal_window >= 1,
        silence_window >= 0,
        encoded_len(signals, signal_window, silence_window) <= total,
        total < encoded_len(signals + 1, signal_window, silence_window),
    ensures
        window_count(total, signal_window, silence_window) == signals,
{
    let count = window_count(total, signal_window, silence_window);
    lemma_window_count_bounds(total, signal_window, silence_window);
    if count < signals {
        if count + 1 < signals {
            lemma_encoded_len_increases(count + 1, signals, signal_window, silence_window);
        }
    } else if signals < count {
        if signals + 1 < count {
            lemma_encoded_len_increases(signals + 1, count, signal_window, silence_window);
        }
    }
}

/// A stream that was laid out for a message holds as many full bursts as
/// the message has signals, and the stream of no signals is empty.
pub proof fn lemma_window_count_of_encoded(signals: int, signal_window: int, silence_window: int)
    requires
        0 <= signals,
        signal_window >= 1,
        silence_window >= 0,
    ensures
        window_count(
            encoded_len(signals, signal_window, silence_window),
            signal_window,
            silence_window,
        ) == signals,
        encoded_len(0, signal_window, silence_window) == 0,
{
    lemma_encoded_len_increases(signals, signals + 1, signal_window, silence_window);
    if signals > 0 {
        lemma_encoded_len_increases(0, signals, signal_window, silence_window);
    }
    lemma_window_count_unique(
        encoded_len(signals, signal_window, silence_window),
        signals,
        signal_window,
        silence_window,
    );
}

/// The stream of no signals is empty, and an empty stream holds no burst.
pub proof fn lemma_empty_stream(signal_window: int, silence_window: int)
    requires
        signal_window >= 1,
        silence_window >= 0,
    ensures
        encoded_len(0, signal_window, silence_window) == 0,
        window_count(0, signal_window, silence_window) == 0,
{
}

/// A stream that is short of its last burst by one sample or more, but not
/// of the burst before, holds one full burst less: the broken burst at its
/// end is dropped.
pub proof fn lemma_truncated_stream(
    total: int,
    signals: int,
    signal_window: int,
    silence_window: int,
)
    requires
        1 <= signals,
        signal_window >= 1,
        silence_window >= 0,
        encoded_len(signals - 1, signal_window, silence_window) <= total,
        total < encoded_len(signals, signal_window, silence_window),
    ensures
        window_count(total, signal_window, silence_window) == signals - 1,
{
    lemma_window_count_unique(total, signals - 1, signal_window, silence_window);
}

/// Every counted burst lies inside the stream, and each begins where the
/// stream of the bursts before it, with one more gap, ends.
pub proof fn lemma_window_inside(total: int, index: int, signal_window: int, silence_window: int)
    requires
        0 <= total,
        signal_window >= 1,
        silence_window >= 0,
        0 <= index < window_count(total, signal_window, silence_window),
    ensures
        0 <= window_start(index, signal_window, silence_window),
        window_start(index, signal_window, silence_window) + signal_window == encoded_len(
            index + 1,
            signal_window,
            silence_window,
        ),
        window_start(index, signal_window, silence_window) + signal_window <= total,
{
    let count = window_count(total, signal_window, silence_window);
    lemma_window_count_bounds(total, signal_window, silence_window);
    if index + 1 < count {
        lemma_encoded_len_increases(index + 1, count, signal_window, silence_window);
    }
    assert(index * (signal_window + silence_window) >= 0) by (nonlinear_arith)
        requires
            index >= 0,
            signal_window + silence_window >= 1,
    ;
}

} // verus!
