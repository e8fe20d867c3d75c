//! Real-time audio I/O core: the 24-bit hardware sample word, the
//! compile-time audio configuration, and the per-interrupt block cycle that
//! moves interleaved stereo samples between a double-buffered transfer channel
//! and a reusable working block.
pub mod config;
pub mod num;
pub mod pipeline;

pub use config::Peripherals;
pub use num::S24;
