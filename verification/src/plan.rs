//! The compute-stage configuration: everything `configure` decides before
//! the first dispatch, as plain values. Building the plan fixes the buffer
//! sizes, the derived threshold parameter, the constant lookup table and
//! the dispatch geometry; the backend that executes it is an external
//! collaborator.

use crate::algorithm::DitherAlgorithm;
use crate::config::DitherConfig;
use crate::matrix::DitheringMatrix;
use crate::matrix::bayer4_entries;
use vstd::prelude::*;

verus! {

/// Reasons the compute stage cannot be configured; both are fatal at
/// startup, before the tick loop is entered.
#[derive(Clone, Copy, Debug, PartialEq, Eq, Structural)]
pub enum PlanError {
    /// The reserved rotating-pattern variant has no defined semantics.
    UnimplementedAlgorithm,
    /// The frame cannot be divided evenly among work items, so a dispatch
    /// could not visit every pixel exactly once.
    DispatchGranularity,
}

/// Pixels decided by one work item of the threshold and ordered variants.
pub const PIXELS_PER_WORK_ITEM: u32 = 32;

/// One resolved compute-stage configuration.
pub struct ComputePlan {
    /// Frame width handed to the compute stage, in pixels.
    pub config_width: u32,
    /// Derived threshold parameter: half the distance between the white
    /// and black levels, in sample units.
    pub threshold: u8,
    /// Size in bytes of the writable packed-bitmap output buffer.
    pub output_len: u32,
    /// Size in bytes of the CPU-readable staging copy; always equal to the
    /// output buffer size.
    pub staging_len: u32,
    /// The constant threshold matrix, for the ordered variant only.
    pub matrix: Option<DitheringMatrix>,
    /// Number of work items one dispatch issues.
    pub work_items: u32,
    /// One output binding per display target of the double buffer.
    pub output_binding_count: u32,
}

impl ComputePlan {
    /// What a correctly built plan guarantees for its configuration: sized
    /// buffers, the derived threshold, and a dispatch that covers every
    /// pixel exactly once.
    pub open spec fn matches(self, algo: DitherAlgorithm, cfg: DitherConfig) -> bool {
        &&& self.config_width == cfg.width
        &&& self.threshold == (cfg.white_level - cfg.black_level) / 2
        &&& self.output_len == cfg.bitmap_len()
        &&& self.staging_len == self.output_len
        &&& self.work_items * PIXELS_PER_WORK_ITEM == cfg.pixel_count()
        &&& self.output_binding_count == 2
        &&& (algo == DitherAlgorithm::Ordered <==> self.matrix is Some)
        &&& self.matrix is Some ==> self.matrix->0.wf() && self.matrix->0.n == 4
            && self.matrix->0.entries@ == bayer4_entries()
    }

    /// Resolves the configuration for the selected algorithm. Fails exactly
    /// when the algorithm is the reserved one, or when the frame cannot be
    /// split evenly among work items.
    pub fn build(algo: DitherAlgorithm, cfg: &DitherConfig) -> (r: Result<ComputePlan, PlanError>)
        requires
            cfg.wf(),
        ensures
            algo == DitherAlgorithm::Pinwheel <==> r == Result::<ComputePlan, PlanError>::Err(
                PlanError::UnimplementedAlgorithm,
            ),
            algo != DitherAlgorithm::Pinwheel && cfg.pixel_count() % (
            PIXELS_PER_WORK_ITEM as int) != 0 <==> r == Result::<ComputePlan, PlanError>::Err(
                PlanError::DispatchGranularity,
            ),
            r is Ok <==> algo != DitherAlgorithm::Pinwheel && cfg.pixel_count() % (
            PIXELS_PER_WORK_ITEM as int) == 0,
            r is Ok ==> r->Ok_0.matches(algo, *cfg),
    {
        if let DitherAlgorithm::Pinwheel = algo {
            return Err(PlanError::UnimplementedAlgorithm);
        }
        let pixels: u32 = cfg.width * cfg.height;
        if pixels % PIXELS_PER_WORK_ITEM != 0 {
            return Err(PlanError::DispatchGranularity);
        }
        let work_items = pixels / PIXELS_PER_WORK_ITEM;
        proof {
            vstd::arithmetic::div_mod::lemma_fundamental_div_mod(
                pixels as int,
                PIXELS_PER_WORK_ITEM as int,
            );
        }
        let output_len = pixels / 8;
        let matrix = if let DitherAlgorithm::Ordered = algo {
            Some(DitheringMatrix::bayer4())
        } else {
            None
        };
        Ok(
            ComputePlan {
                config_width: cfg.width,
                threshold: (cfg.white_level - cfg.black_level) / 2,
                output_len,
                staging_len: output_len,
                matrix,
                work_items,
                output_binding_count: 2,
            },
        )
    }
}

} // verus!
