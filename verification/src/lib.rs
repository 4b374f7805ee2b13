//! Core logic of a 1-bit dithering display pipeline: grayscale frames are
//! quantized to a packed monochrome bitmap, double-buffered across ticks,
//! handed to a bounded outbound queue, and serialized into offset-addressed
//! blocks for a byte-oriented serial link.

pub mod algorithm;
pub mod blocks;
pub mod config;
pub mod diffusion;
pub mod dither;
pub mod frame;
pub mod matrix;
pub mod plan;
pub mod packing;
pub mod pipeline;
pub mod queue;
pub mod rgb;

pub use crate::algorithm::DitherAlgorithm;

use vstd::prelude::*;

verus! {

/// Native horizontal resolution of the target matrix display, in pixels.
pub const DISPLAY_WIDTH: u32 = 320;

/// Native vertical resolution of the target matrix display, in pixels.
pub const DISPLAY_HEIGHT: u32 = 240;

/// Default display refresh cadence, in frames per second.
pub const DISPLAY_FPS: u32 = 30;

/// Index of the display buffer that the compute stage writes on a tick
/// with the given frame counter.
pub open spec fn write_index(counter: u64) -> int {
    counter as int % 2
}

/// Index of the display buffer that the readback path reads on a tick
/// with the given frame counter: always the buffer written one tick ago.
pub open spec fn read_index(counter: u64) -> int {
    (counter as int + 1) % 2
}

/// The frame counter after a tick: wrapping increment; overflow is benign
/// because the counter is only ever used modulo two.
pub open spec fn wrap_inc(counter: u64) -> u64 {
    if counter == u64::MAX {
        0
    } else {
        (counter + 1) as u64
    }
}

/// The buffer written on a tick is never the buffer read on the same tick.
pub proof fn lemma_buffer_indices_disjoint(counter: u64)
    ensures
        write_index(counter) != read_index(counter),
        0 <= write_index(counter) < 2,
        0 <= read_index(counter) < 2,
{
    let c = counter as int;
    vstd::arithmetic::div_mod::lemma_add_mod_noop(c, 1, 2);
    vstd::arithmetic::div_mod::lemma_mod_bound(c, 2);
    vstd::arithmetic::div_mod::lemma_mod_bound(c + 1, 2);
}

/// Across consecutive ticks the double buffer rotates: the next tick reads
/// exactly the buffer this tick wrote, so a bitmap is read back one tick
/// after it is computed and never concurrently with its write.
pub proof fn lemma_next_tick_reads_last_write(counter: u64)
    ensures
        read_index(wrap_inc(counter)) == write_index(counter),
{
    let c = counter as int;
    if counter == u64::MAX {
        assert(read_index(0) == 1);
        assert(u64::MAX as int % 2 == 1);
    } else {
        vstd::arithmetic::div_mod::lemma_add_mod_noop(c, 2, 2);
        vstd::arithmetic::div_mod::lemma_mod_self_0(2);
        vstd::arithmetic::div_mod::lemma_mod_bound(c, 2);
        vstd::arithmetic::div_mod::lemma_small_mod((c % 2) as nat, 2);
    }
}

} // verus!
