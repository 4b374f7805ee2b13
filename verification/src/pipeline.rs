//! The frame pipeline orchestrator: once per display tick it uploads the
//! newest camera frame (or silently reuses the previous one), runs the
//! dithering compute over every pixel, writes the packed bitmap into the
//! display buffer selected by the frame counter's parity, and reads back
//! the buffer written one tick ago for publication to the outbound queue.

use crate::algorithm::DitherAlgorithm;
use crate::config::DitherConfig;
use crate::frame::packed_ordered_spec;
use crate::frame::packed_threshold_spec;
use crate::frame::pack_frame_ordered;
use crate::frame::pack_frame_threshold;
use crate::matrix::DitheringMatrix;
use crate::plan::PlanError;
use crate::queue::FrameQueue;
use crate::read_index;
use crate::wrap_inc;
use crate::write_index;
use vstd::prelude::*;
use vstd::pervasive::VecAdditionalExecFns;

verus! {

/// Orchestrator state: configuration, the double-buffered output targets,
/// the last uploaded input frame, and the tick counter.
pub struct FramePipeline {
    /// Immutable dithering configuration.
    pub config: DitherConfig,
    /// The selected algorithm; never the reserved one.
    pub algorithm: DitherAlgorithm,
    /// Constant threshold matrix used by the ordered algorithm.
    pub matrix: DitheringMatrix,
    /// The most recently uploaded grayscale frame; reused when capture
    /// fails on a tick.
    pub input: Vec<u8>,
    /// The two equally sized packed-bitmap display buffers.
    pub targets: Vec<Vec<u8>>,
    /// Ticks completed so far; wraps, and is only used modulo two.
    pub frame_counter: u64,
}

impl FramePipeline {
    /// Structural invariant: valid configuration and matrix, a supported
    /// algorithm, an input buffer of one frame, and exactly two display
    /// buffers of one packed bitmap each.
    pub open spec fn wf(self) -> bool {
        &&& self.config.wf()
        &&& self.matrix.wf()
        &&& self.algorithm != DitherAlgorithm::Pinwheel
        &&& self.input@.len() == self.config.pixel_count()
        &&& self.targets@.len() == 2
        &&& forall|i: int|
            0 <= i < 2 ==> #[trigger] self.targets@[i]@.len() == self.config.bitmap_len()
    }

    /// The packed bitmap the compute stage produces for a frame under this
    /// pipeline's algorithm and configuration.
    pub open spec fn packed_spec(self, gray: Seq<u8>) -> Seq<u8> {
        if self.algorithm == DitherAlgorithm::Threshold {
            packed_threshold_spec(gray, self.config.black_level, self.config.white_level)
        } else {
            packed_ordered_spec(gray, self.config.width as int, self.matrix)
        }
    }

    /// The frame the tick works on: a delivered capture of the right size
    /// replaces the stored input; otherwise the previous frame is reused.
    pub open spec fn uploaded_input(self, camera_frame: Option<&Vec<u8>>) -> Seq<u8> {
        if camera_frame is Some && camera_frame->0@.len() == self.config.pixel_count() {
            camera_frame->0@
        } else {
            self.input@
        }
    }

    /// Builds a pipeline with zeroed buffers. Fails exactly when the
    /// reserved algorithm is selected: configuring it is a startup error.
    pub fn new(config: DitherConfig, algorithm: DitherAlgorithm, matrix: DitheringMatrix) -> (r:
        Result<FramePipeline, PlanError>)
        requires
            config.wf(),
            matrix.wf(),
        ensures
            algorithm == DitherAlgorithm::Pinwheel <==> r == Result::<
                FramePipeline,
                PlanError,
            >::Err(PlanError::UnimplementedAlgorithm),
            r is Ok <==> algorithm != DitherAlgorithm::Pinwheel,
            r is Ok ==> r->Ok_0.wf() && r->Ok_0.config == config && r->Ok_0.algorithm == algorithm
                && r->Ok_0.matrix == matrix && r->Ok_0.frame_counter == 0,
    {
        if let DitherAlgorithm::Pinwheel = algorithm {
            return Err(PlanError::UnimplementedAlgorithm);
        }
        let pixels: u32 = config.width * config.height;
        let input = zero_bytes(pixels as usize);
        let bitmap_bytes: usize = (pixels / 8) as usize;
        let mut targets: Vec<Vec<u8>> = Vec::new();
        targets.push(zero_bytes(bitmap_bytes));
        targets.push(zero_bytes(bitmap_bytes));
        Ok(FramePipeline { config, algorithm, matrix, input, targets, frame_counter: 0 })
    }

    /// Runs one tick: upload (or reuse), dither and pack into the buffer at
    /// `write_index`, and read back the buffer at `read_index` — always the
    /// one written on the previous tick, never the one written now.
    pub fn tick(&mut self, camera_frame: Option<&Vec<u8>>) -> (published: Vec<u8>)
        requires
            old(self).wf(),
        ensures
            final(self).wf(),
            final(self).config == old(self).config,
            final(self).algorithm == old(self).algorithm,
            final(self).matrix == old(self).matrix,
            final(self).frame_counter == wrap_inc(old(self).frame_counter),
            final(self).input@ == old(self).uploaded_input(camera_frame),
            final(self).targets@[write_index(old(self).frame_counter)]@ == old(self).packed_spec(
                old(self).uploaded_input(camera_frame),
            ),
            final(self).targets@[read_index(old(self).frame_counter)] == old(self).targets@[
                read_index(old(self).frame_counter)],
            published@ == old(self).targets@[read_index(old(self).frame_counter)]@,
            final(self).targets@[read_index(final(self).frame_counter)]@ == old(self).packed_spec(
                old(self).uploaded_input(camera_frame),
            ),
    {
        proof {
            crate::lemma_buffer_indices_disjoint(self.frame_counter);
            crate::lemma_next_tick_reads_last_write(self.frame_counter);
        }
        if let Some(f) = camera_frame {
            if f.len() == self.input.len() {
                self.input = f.clone();
                proof {
                    assert(self.input@ =~= f@);
                }
            }
        }
        let packed = match self.algorithm {
            DitherAlgorithm::Threshold => pack_frame_threshold(&self.input, &self.config),
            DitherAlgorithm::Ordered => pack_frame_ordered(&self.input, &self.config, &self.matrix),
            DitherAlgorithm::Pinwheel => vstd::pervasive::unreached(),
        };
        let w: usize = (self.frame_counter % 2) as usize;
        let r: usize = if w == 0 {
            1
        } else {
            0
        };
        proof {
            vstd::arithmetic::div_mod::lemma_add_mod_noop(old(self).frame_counter as int, 1, 2);
            vstd::arithmetic::div_mod::lemma_mod_bound(old(self).frame_counter as int, 2);
            assert(r == read_index(old(self).frame_counter));
        }
        self.targets.set(w, packed);
        let published = clone_bytes(&self.targets[r]);
        self.frame_counter = self.frame_counter.wrapping_add(1);
        published
    }

    /// One tick followed by publication: the read-back bitmap is offered to
    /// the outbound queue with a non-blocking send, and is dropped when the
    /// queue is full.
    pub fn tick_and_publish(&mut self, camera_frame: Option<&Vec<u8>>, queue: &mut FrameQueue) -> (
        accepted: bool)
        requires
            old(self).wf(),
            old(queue).wf(),
        ensures
            final(self).wf(),
            final(queue).wf(),
            final(queue).capacity == old(queue).capacity,
            final(self).config == old(self).config,
            final(self).algorithm == old(self).algorithm,
            final(self).matrix == old(self).matrix,
            final(self).frame_counter == wrap_inc(old(self).frame_counter),
            final(self).input@ == old(self).uploaded_input(camera_frame),
            final(self).targets@[write_index(old(self).frame_counter)]@ == old(self).packed_spec(
                old(self).uploaded_input(camera_frame),
            ),
            accepted == (old(queue).contents().len() < old(queue).capacity),
            accepted ==> final(queue).contents() == old(queue).contents().push(
                old(self).targets@[read_index(old(self).frame_counter)]@,
            ),
            !accepted ==> final(queue).contents() == old(queue).contents(),
    {
        let published = self.tick(camera_frame);
        queue.try_send(published)
    }
}

/// A zero-filled byte buffer of the requested length.
fn zero_bytes(n: usize) -> (r: Vec<u8>)
    ensures
        r@.len() == n,
        forall|i: int| 0 <= i < n ==> r@[i] == 0u8,
{
    let mut r: Vec<u8> = Vec::new();
    let mut i: usize = 0;
    while i < n
        invariant
            i <= n,
            r@.len() == i,
            forall|j: int| 0 <= j < i ==> r@[j] == 0u8,
        decreases n - i,
    {
        r.push(0u8);
        i = i + 1;
    }
    r
}

/// An owned copy of a byte buffer.
fn clone_bytes(src: &Vec<u8>) -> (r: Vec<u8>)
    ensures
        r@ == src@,
{
    let r = src.clone();
    proof {
        assert(r@ =~= src@);
    }
    r
}

} // verus!
