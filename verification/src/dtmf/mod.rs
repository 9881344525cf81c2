pub mod message;
pub mod signal;

pub use self::message::Message;
pub use self::signal::{Signal, SignalParsingError};
