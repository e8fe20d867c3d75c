//! Compile-time configuration of the audio path and the board.
use vstd::prelude::*;

verus! {

/// Peripherals that the board set-up hands over once initialised.
pub struct Peripherals {}

/// Largest number of frames in one audio block.
pub const BLOCK_SIZE_MAX: usize = 1024;

/// Words in the whole DMA buffer: two halves of interleaved stereo.
pub const DMA_BUFFER_SIZE: usize = BLOCK_SIZE_MAX * 2 * 2;

/// Base address of the DMA-capable memory region.
pub const START_OF_DRAM2: u32 = 0x3000_0000;

/// Size in bytes of the DMA-capable memory region.
pub const DMA_MEM_SIZE: usize = 32 * 1024;

/// Words in one half of the DMA buffer.
pub const MAX_TRANSFER_SIZE: usize = BLOCK_SIZE_MAX * 2;

pub const MILLI: u32 = 1_000;

/// Blocks per second.
pub const AUDIO_FRAME_RATE_HZ: u32 = 1_000;

/// Frames in one audio block in the reference configuration.
pub const AUDIO_BLOCK_SIZE: u16 = 48;

/// Frames per second.
pub const AUDIO_SAMPLE_RATE: u32 = 48_000;

/// Core clock.
pub const CLOCK_RATE_HZ: u32 = 480_000_000;

/// External oscillator frequency.
pub const HSE_CLOCK_MHZ: u32 = 16_000_000;

pub const HEAP_START: usize = 0x2402_0000;

pub const HEAP_SIZE: usize = (512 - 128) * 1024;

} // verus!
