//! Dual-tone multi-frequency signalling: the keypad's symbol table, messages
//! of keys, and the framing that lays a message out as tone bursts and
//! silence gaps and finds the bursts again in a stream of samples.
//!
//! Everything here is integer logic. Turning a tone frame into an amplitude
//! and a window of amplitudes into power levels is numeric work that the
//! caller does: the library tells the caller which frames to synthesise and
//! which windows to measure, and decides what the measured powers mean.
//!
//! * [`dtmf`] holds the signals, their tone pairs and characters, and the
//!   messages made of them.
//! * [`framing`] turns durations into window lengths and counts the bursts
//!   of a stream.
//! * [`encoder`] lays a message out frame by frame.
//! * [`decoder`] picks the strongest tones of a window, names their key, and
//!   walks the windows of a stream.

pub mod decoder;
pub mod dtmf;
pub mod encoder;
pub mod framing;

pub use self::dtmf::{Message, Signal, SignalParsingError};
