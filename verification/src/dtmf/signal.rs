use std::str::FromStr;
use vstd::prelude::*;

verus! {

/// One key of the sixteen-key DTMF keypad.
///
/// `Digit` carries the digit's value, and only the values `0` to `9` name a
/// key: a `Digit` above nine can be built, but it has no frequency pair and
/// no message accepts it.
#[derive(Clone, Copy, PartialEq, Eq, Debug, Structural)]
pub enum Signal {
    /// A digit from 0 to 9.
    Digit(u8),
    /// The key "A".
    A,
    /// The key "B".
    B,
    /// The key "C".
    C,
    /// The key "D".
    D,
    /// The key "*".
    Asterisk,
    /// The key "#".
    Hash,
}

/// Why a piece of text is not a signal.
#[derive(Clone, Copy, PartialEq, Eq, Debug, Structural)]
pub enum SignalParsingError {
    /// The text was empty.
    TooShort,
    /// The text holds more than one signal.
    TooLong,
    /// The character names no key.
    UnknownSignal(char),
}

/// The low-group tones in hertz, one per keypad row, top row first.
pub open spec fn low_group() -> Seq<u16> {
    seq![697u16, 770u16, 852u16, 941u16]
}

/// The high-group tones in hertz, one per keypad column, left column first.
pub open spec fn high_group() -> Seq<u16> {
    seq![1209u16, 1336u16, 1477u16, 1633u16]
}

/// The keypad row that sounds the low tone `frequency`.
pub open spec fn row_of(frequency: u16) -> Option<int> {
    if frequency == 697 {
        Some(0)
    } else if frequency == 770 {
        Some(1)
    } else if frequency == 852 {
        Some(2)
    } else if frequency == 941 {
        Some(3)
    } else {
        None
    }
}

/// The keypad column that sounds the high tone `frequency`.
pub open spec fn column_of(frequency: u16) -> Option<int> {
    if frequency == 1209 {
        Some(0)
    } else if frequency == 1336 {
        Some(1)
    } else if frequency == 1477 {
        Some(2)
    } else if frequency == 1633 {
        Some(3)
    } else {
        None
    }
}

/// The key at a place of the keypad, rows and columns counted from the top
/// left.
///
/// ```text
///      1  2  3  A
///      4  5  6  B
///      7  8  9  C
///      *  0  #  D
/// ```
pub open spec fn key_at(row: int, column: int) -> Signal
    recommends
        0 <= row < 4,
        0 <= column < 4,
{
    if column == 3 {
        if row == 0 {
            Signal::A
        } else if row == 1 {
            Signal::B
        } else if row == 2 {
            Signal::C
        } else {
            Signal::D
        }
    } else if row == 3 {
        if column == 0 {
            Signal::Asterisk
        } else if column == 1 {
            Signal::Digit(0)
        } else {
            Signal::Hash
        }
    } else {
        Signal::Digit((3 * row + column + 1) as u8)
    }
}

/// The sixteen keys, digits first, in the order in which `Signal::iter`
/// lists them.
pub open spec fn all_signals() -> Seq<Signal> {
    seq![
        Signal::Digit(0),
        Signal::Digit(1),
        Signal::Digit(2),
        Signal::Digit(3),
        Signal::Digit(4),
        Signal::Digit(5),
        Signal::Digit(6),
        Signal::Digit(7),
        Signal::Digit(8),
        Signal::Digit(9),
        Signal::A,
        Signal::B,
        Signal::C,
        Signal::D,
        Signal::Asterisk,
        Signal::Hash,
    ]
}

impl Signal {
    /// Where the key sits on the keypad, as (row, column); `None` for a
    /// digit above nine.
    pub open spec fn position(self) -> Option<(int, int)> {
        match self {
            Signal::Digit(n) => if n == 0 {
                Some((3, 1))
            } else if n <= 9 {
                Some(((n - 1) / 3, (n - 1) % 3))
            } else {
                None
            },
            Signal::A => Some((0, 3)),
            Signal::B => Some((1, 3)),
            Signal::C => Some((2, 3)),
            Signal::D => Some((3, 3)),
            Signal::Asterisk => Some((3, 0)),
            Signal::Hash => Some((3, 2)),
        }
    }

    /// A signal is valid when it names a key.
    pub open spec fn is_valid(self) -> bool {
        self.position() is Some
    }

    /// The key's tone pair: the low tone of its row and the high tone of its
    /// column.
    pub open spec fn spec_frequencies(self) -> Option<(u16, u16)> {
        match self.position() {
            Some((row, column)) => Some((low_group()[row], high_group()[column])),
            None => None,
        }
    }

    /// The key that sounds the tone pair `frequencies`: the one where the
    /// row of the low tone meets the column of the high tone.
    pub open spec fn spec_from_frequencies(frequencies: (u16, u16)) -> Option<Signal> {
        match (row_of(frequencies.0), column_of(frequencies.1)) {
            (Some(row), Some(column)) => Some(key_at(row, column)),
            _ => None,
        }
    }

    /// What a character stands for: a digit for itself, a letter from A to D
    /// in either case, `*` and `#` for their keys.
    pub open spec fn spec_from_char(input: char) -> Result<Signal, SignalParsingError> {
        if '0' <= input <= '9' {
            Ok(Signal::Digit((input as u32 - '0' as u32) as u8))
        } else if input == 'A' || input == 'a' {
            Ok(Signal::A)
        } else if input == 'B' || input == 'b' {
            Ok(Signal::B)
        } else if input == 'C' || input == 'c' {
            Ok(Signal::C)
        } else if input == 'D' || input == 'd' {
            Ok(Signal::D)
        } else if input == '*' {
            Ok(Signal::Asterisk)
        } else if input == '#' {
            Ok(Signal::Hash)
        } else {
            Err(SignalParsingError::UnknownSignal(input))
        }
    }

    /// The character that is written for a key, letters in upper case.
    pub open spec fn spec_to_char(self) -> char
        recommends
            self.is_valid(),
    {
        match self {
            Signal::Digit(n) => ('0' as u32 + n as u32) as char,
            Signal::A => 'A',
            Signal::B => 'B',
            Signal::C => 'C',
            Signal::D => 'D',
            Signal::Asterisk => '*',
            Signal::Hash => '#',
        }
    }

    /// Reads a signal from a character.
    pub fn from_char(input: char) -> (signal: Result<Signal, SignalParsingError>)
        ensures
            signal == Self::spec_from_char(input),
            signal matches Ok(s) ==> s.is_valid(),
    {
        match input {
            '*' => Ok(Signal::Asterisk),
            '#' => Ok(Signal::Hash),
            'A' | 'a' => Ok(Signal::A),
            'B' | 'b' => Ok(Signal::B),
            'C' | 'c' => Ok(Signal::C),
            'D' | 'd' => Ok(Signal::D),
            '0' => Ok(Signal::Digit(0)),
            '1' => Ok(Signal::Digit(1)),
            '2' => Ok(Signal::Digit(2)),
            '3' => Ok(Signal::Digit(3)),
            '4' => Ok(Signal::Digit(4)),
            '5' => Ok(Signal::Digit(5)),
            '6' => Ok(Signal::Digit(6)),
            '7' => Ok(Signal::Digit(7)),
            '8' => Ok(Signal::Digit(8)),
            '9' => Ok(Signal::Digit(9)),
            unknown => Err(SignalParsingError::UnknownSignal(unknown)),
        }
    }

    /// Finds the signal from its lower and its upper frequency.
    pub fn from_frequencies(frequencies: (u16, u16)) -> (signal: Option<Signal>)
        ensures
            signal == Self::spec_from_frequencies(frequencies),
            signal matches Some(s) ==> s.spec_frequencies() == Some(frequencies),
            signal is None ==> forall|s: Signal| s.spec_frequencies() != Some(frequencies),
    {
        let found = match (frequencies.0, frequencies.1) {
            (941, 1336) => Some(Signal::Digit(0)),
            (697, 1209) => Some(Signal::Digit(1)),
            (697, 1336) => Some(Signal::Digit(2)),
            (697, 1477) => Some(Signal::Digit(3)),
            (770, 1209) => Some(Signal::Digit(4)),
            (770, 1336) => Some(Signal::Digit(5)),
            (770, 1477) => Some(Signal::Digit(6)),
            (852, 1209) => Some(Signal::Digit(7)),
            (852, 1336) => Some(Signal::Digit(8)),
            (852, 1477) => Some(Signal::Digit(9)),
            (697, 1633) => Some(Signal::A),
            (770, 1633) => Some(Signal::B),
            (852, 1633) => Some(Signal::C),
            (941, 1633) => Some(Signal::D),
            (941, 1209) => Some(Signal::Asterisk),
            (941, 1477) => Some(Signal::Hash),
            _ => None,
        };
        proof {
            if found is None {
                assert forall|s: Signal| s.spec_frequencies() != Some(frequencies) by {
                    lemma_frequencies_round_trip(s);
                }
            }
        }
        found
    }

    /// The lower and the upper frequency of the signal, `None` if the signal
    /// names no key.
    pub fn frequencies(&self) -> (pair: Option<(u16, u16)>)
        ensures
            pair == self.spec_frequencies(),
            pair is Some <==> self.is_valid(),
    {
        match *self {
            Signal::Digit(0) => Some((941, 1336)),
            Signal::Digit(1) => Some((697, 1209)),
            Signal::Digit(2) => Some((697, 1336)),
            Signal::Digit(3) => Some((697, 1477)),
            Signal::Digit(4) => Some((770, 1209)),
            Signal::Digit(5) => Some((770, 1336)),
            Signal::Digit(6) => Some((770, 1477)),
            Signal::Digit(7) => Some((852, 1209)),
            Signal::Digit(8) => Some((852, 1336)),
            Signal::Digit(9) => Some((852, 1477)),
            Signal::A => Some((697, 1633)),
            Signal::B => Some((770, 1633)),
            Signal::C => Some((852, 1633)),
            Signal::D => Some((941, 1633)),
            Signal::Asterisk => Some((941, 1209)),
            Signal::Hash => Some((941, 1477)),
            _ => None,
        }
    }

    /// All valid signals, digits first.
    pub fn iter() -> (signals: Vec<Signal>)
        ensures
            signals@ == all_signals(),
    {
        let mut signals: Vec<Signal> = Vec::new();
        signals.push(Signal::Digit(0));
        signals.push(Signal::Digit(1));
        signals.push(Signal::Digit(2));
        signals.push(Signal::Digit(3));
        signals.push(Signal::Digit(4));
        signals.push(Signal::Digit(5));
        signals.push(Signal::Digit(6));
        signals.push(Signal::Digit(7));
        signals.push(Signal::Digit(8));
        signals.push(Signal::Digit(9));
        signals.push(Signal::A);
        signals.push(Signal::B);
        signals.push(Signal::C);
        signals.push(Signal::D);
        signals.push(Signal::Asterisk);
        signals.push(Signal::Hash);
        signals
    }

    /// The character that is written for the key.
    pub fn to_char(&self) -> (c: char)
        requires
            self.is_valid(),
        ensures
            c == self.spec_to_char(),
    {
        match *self {
            Signal::Asterisk => '*',
            Signal::Hash => '#',
            Signal::A => 'A',
            Signal::B => 'B',
            Signal::C => 'C',
            Signal::D => 'D',
            Signal::Digit(0) => '0',
            Signal::Digit(1) => '1',
            Signal::Digit(2) => '2',
            Signal::Digit(3) => '3',
            Signal::Digit(4) => '4',
            Signal::Digit(5) => '5',
            Signal::Digit(6) => '6',
            Signal::Digit(7) => '7',
            Signal::Digit(8) => '8',
            Signal::Digit(_) => '9',
        }
    }
}

impl Signal {
    /// What a text stands for: a text of one ASCII character, which is one
    /// byte long, is read as that character; the empty text is too short
    /// and any other is too long.
    pub open spec fn spec_parse(text: Seq<char>) -> Result<Signal, SignalParsingError> {
        if text.len() == 0 {
            Err(SignalParsingError::TooShort)
        } else if text.len() == 1 && text[0] as u32 <= 0x7f {
            Self::spec_from_char(text[0])
        } else {
            Err(SignalParsingError::TooLong)
        }
    }

    /// Reads a signal from a text that holds nothing else.
    pub fn parse(text: &str) -> (signal: Result<Signal, SignalParsingError>)
        ensures
            signal == Self::spec_parse(text@),
    {
        let characters = text.unicode_len();
        if characters == 0 {
            Err(SignalParsingError::TooShort)
        } else if characters == 1 {
            let character = text.get_char(0);
            if character <= '\x7f' {
                Signal::from_char(character)
            } else {
                Err(SignalParsingError::TooLong)
            }
        } else {
            Err(SignalParsingError::TooLong)
        }
    }

    /// The text that is written for the key: its character.
    pub fn as_str(&self) -> (text: &'static str)
        requires
            self.is_valid(),
        ensures
            text@ == seq![self.spec_to_char()],
    {
        proof {
            reveal_strlit("0");
            reveal_strlit("1");
            reveal_strlit("2");
            reveal_strlit("3");
            reveal_strlit("4");
            reveal_strlit("5");
            reveal_strlit("6");
            reveal_strlit("7");
            reveal_strlit("8");
            reveal_strlit("9");
            reveal_strlit("A");
            reveal_strlit("B");
            reveal_strlit("C");
            reveal_strlit("D");
            reveal_strlit("*");
            reveal_strlit("#");
        }
        let text = match *self {
            Signal::Asterisk => "*",
            Signal::Hash => "#",
            Signal::A => "A",
            Signal::B => "B",
            Signal::C => "C",
            Signal::D => "D",
            Signal::Digit(0) => "0",
            Signal::Digit(1) => "1",
            Signal::Digit(2) => "2",
            Signal::Digit(3) => "3",
            Signal::Digit(4) => "4",
            Signal::Digit(5) => "5",
            Signal::Digit(6) => "6",
            Signal::Digit(7) => "7",
            Signal::Digit(8) => "8",
            Signal::Digit(_) => "9",
        };
        text
    }

    /// The key's character as an owned text.
    pub fn to_string(&self) -> (text: String)
        requires
            self.is_valid(),
        ensures
            text@ == seq![self.spec_to_char()],
    {
        self.as_str().to_owned()
    }
}

impl FromStr for Signal {
    type Err = SignalParsingError;

    /// Reads a signal as `Signal::parse` does.
    fn from_str(text: &str) -> (signal: Result<Signal, SignalParsingError>)
        ensures
            signal == Signal::spec_parse(text@),
    {
        Signal::parse(text)
    }
}

/// Looking a key's tone pair up gives the key back, and a digit above nine
/// has no pair to look up.
pub proof fn lemma_frequencies_round_trip(signal: Signal)
    ensures
        signal.is_valid() ==> (signal.spec_frequencies() matches Some(pair)
            && Signal::spec_from_frequencies(pair) == Some(signal)),
        !signal.is_valid() ==> signal.spec_frequencies() is None,
{
}

/// Every pair of a low-group and a high-group tone belongs to exactly the
/// key that the lookup finds, and no other pair belongs to any key.
pub proof fn lemma_from_frequencies_total(frequencies: (u16, u16))
    ensures
        low_group().contains(frequencies.0) && high_group().contains(frequencies.1)
            <==> Signal::spec_from_frequencies(frequencies) is Some,
        Signal::spec_from_frequencies(frequencies) matches Some(signal)
            ==> signal.spec_frequencies() == Some(frequencies),
{
}

/// Writing a key and reading the character again gives the key back.
pub proof fn lemma_char_round_trip(signal: Signal)
    requires
        signal.is_valid(),
    ensures
        Signal::spec_from_char(signal.spec_to_char()) == Ok::<Signal, SignalParsingError>(signal),
{
}

/// Reading a character and writing the key again gives the character back,
/// a lower-case letter in upper case.
pub proof fn lemma_char_canonical(input: char)
    ensures
        Signal::spec_from_char(input) matches Ok(signal) ==> signal.is_valid() && (
        signal.spec_to_char() == input || ('a' <= input <= 'd' && signal.spec_to_char() as u32
            + 32 == input as u32)),
        Signal::spec_from_char(input) matches Err(error) ==> error
            == SignalParsingError::UnknownSignal(input),
{
}

/// `all_signals` lists every valid signal, each once.
pub proof fn lemma_all_signals(signal: Signal)
    ensures
        all_signals().contains(signal) <==> signal.is_valid(),
        all_signals().no_duplicates(),
        all_signals().len() == 16,
{
}

} // verus!
