//! Streaming spectral-analysis core of a pitch analyzer: reassembly of an
//! audio stream into power-of-two windows, the recursive radix-2 transform,
//! note naming from piano keys, and selection of the displayed bin.

pub mod pow2;
pub mod accumulator;
pub mod fft;
pub mod notes;
pub mod graph;
