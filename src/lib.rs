//! Core of a live audio spectrum display: a circular sample store, the sizing
//! and block layout of the forward transform, window coefficient tables, the
//! bin/frequency arithmetic, and the pixel-column binning with its
//! peak-hold/falloff animation state.

pub mod power_of_two;
pub mod ring_buffer;
pub mod window;
pub mod fft;
pub mod frequency;
pub mod columns;
pub mod spectrum;
