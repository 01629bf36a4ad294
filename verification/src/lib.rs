//! Protocol engine for a single serial-attached device: checksummed frame
//! encoding and decoding, command dispatch with bounded retry, and
//! device discovery by probing, together with the in-memory session state
//! that those operations read and update.

pub mod codec;
pub mod discovery;
pub mod log;
pub mod retry;
pub mod session;
pub mod text;
