pub mod message_encoder;
pub mod signal_encoder;

pub use self::message_encoder::MessageEncoder;
pub use self::signal_encoder::{Frame, SignalEncoder};
