//! Bounded hand-off of audio samples between a real-time callback and a
//! network feed: a fixed-capacity circular sample buffer, the session that
//! couples one producer and one consumer through it, the session handshake,
//! and the little-endian wire encoding of samples.

pub mod audio_buffer;
pub mod audio_stream;
pub mod error;
pub mod handshake;
pub mod wire;
