//! Verified core of a polyphonic synthesizer voice engine.
//!
//! The modules here hold the index arithmetic and the state logic that the
//! sample path of the engine relies on: the circular delay buffer, the
//! bookkeeping of sounding voices, the envelope's step counter, the layout of
//! the oscillator wavetables, the sizing of the vibrato delay line and the
//! arithmetic on note numbers. Sample values pass through these types as an
//! opaque, copyable parameter, so the numeric kernels that scale and mix
//! them live with the caller.

pub mod envelopes;
pub mod filters;
pub mod lfo;
pub mod oscillators;
pub mod polyphony;
pub mod ring_buffer;
pub mod utils;
pub mod wrapper;
