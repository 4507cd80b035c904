//! A small keyboard instrument core: a bank of square-wave oscillators
//! rendered in fixed-point arithmetic, a router that turns key events into
//! oscillator gain changes, and a frame scheduler that paces a visual loop
//! and keeps a rolling frame-rate estimate.
//!
//! All quantities are integers: a phase is a count of billionths of one
//! waveform cycle, a gain is a count of millionths of full scale, and times
//! are nanoseconds. The surrounding program converts to and from the audio
//! device's sample format at the edge.

pub mod oscillator;
pub mod router;
pub mod scheduler;
