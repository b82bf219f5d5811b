//! Decoding of a one-bit-per-sample serial stream into 8-bit audio, the
//! cancellation protocol around the blocking loop that carries it, and the
//! lifecycle of the virtual audio sink it is played through.

pub mod commands;
pub mod ctrlc;
pub mod io;
pub mod session;
pub mod sink;
pub mod stream;
