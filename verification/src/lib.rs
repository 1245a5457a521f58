//! Numeric core of an inductive position sensor.
//!
//! The pipeline synthesizes pulse-density-modulated excitation waveforms for a
//! set of phase-shifted coils, demodulates synchronously captured ADC samples
//! against a fixed-point sine/cosine reference table into a wrapped phase
//! angle, and unwraps successive angles into a drift-resistant position
//! estimate. All arithmetic is integer fixed point: angles are held in units
//! of 2^-20 radians, unit waveforms in units of 2^-15.

pub mod angle;
pub mod arith;
pub mod command;
pub mod demod;
pub mod pdm;
pub mod position;
pub mod reference;
pub mod samples;
pub mod spectrum;
pub mod trig;
pub mod trigger;
