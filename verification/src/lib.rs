//! A loopback-and-mixing audio core: captured samples are fanned out to a set
//! of independently selected output routes, each with its own bounded transfer
//! channel and its own volume and mute controls.
//!
//! Samples and volumes travel through the core as the raw 32-bit encodings of
//! the hardware's scalar sample format; the core moves and selects them but
//! never does scalar arithmetic on them. The surrounding application owns the
//! hardware streams and applies the gains the core hands out.

pub mod channel;
pub mod config;
pub mod devices;
pub mod engine;
pub mod laws;
pub mod rate;
