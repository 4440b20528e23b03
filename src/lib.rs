//! Depth logging: converts raw readings of a 12-bit pressure ADC into volts,
//! PSI and metres of saltwater, lays each sample out as a row of a CSV log,
//! and decides, cycle by cycle, what the sampling loop does next.
pub mod convert;
pub mod text;
pub mod timestamp;
pub mod record;
pub mod sampler;
