//! Verified core of the Glicol audio engine bindings: the clock gate that keeps
//! the sawtooth oscillator from rendering a block twice at one clock tick, the
//! little-endian framing of sample words handed to the host, the silent
//! fallback block, and the UTF-8 decoding of code and sample names.

pub mod frame;
pub mod saw;
pub mod text;
