//! Multi-channel audio samples: waveform transformations, spectral bucket
//! scanning and a block-based multi-track mixing engine.

pub mod analyzer;
pub mod engine;
pub mod fft;
pub mod mix;
pub mod models;
pub mod player;
pub mod rate;
pub mod ring;
pub mod scalar;
pub mod scissor;
pub mod track;
pub mod transformation;
pub mod whole;
