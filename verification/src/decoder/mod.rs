pub mod goertzel;
pub mod message_decoder;
pub mod message_maker;
pub mod signal_decoder;

pub use self::goertzel::{goertzel_filter, power_at, Goertzel_DTMF};
pub use self::message_decoder::{decode_message, DecodeError};
pub use self::message_maker::MessageMaker;
pub use self::signal_decoder::{decode_signal, DetectionError, GoertzelBin};
