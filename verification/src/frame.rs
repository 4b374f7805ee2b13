//! Whole-frame dithering: the parallel compute stage's semantics as a
//! function from a grayscale frame to a packed 1-bit bitmap. Every pixel of
//! the W x H frame is decided exactly once, independently of all others.

use crate::algorithm::DitherAlgorithm;
use crate::config::DitherConfig;
use crate::dither::ordered_bit;
use crate::dither::threshold_bit;
use crate::dither::threshold_bit_spec;
use crate::matrix::DitheringMatrix;
use crate::packing::bit_of_byte;
use crate::packing::lemma_pack_unpack_roundtrip;
use crate::packing::pack_bits;
use crate::packing::pack_bits_spec;
use crate::packing::unpack_bits_spec;
use crate::plan::PlanError;
use vstd::prelude::*;

verus! {

/// One dithering decision per pixel of the frame, under the threshold
/// algorithm.
pub open spec fn threshold_bits_spec(gray: Seq<u8>, black: u8, white: u8) -> Seq<bool> {
    Seq::new(gray.len(), |k: int| threshold_bit_spec(gray[k], black, white))
}

/// One dithering decision per pixel of the frame, under the ordered
/// algorithm; pixel `k` sits at `(k mod width, k div width)`.
pub open spec fn ordered_bits_spec(gray: Seq<u8>, width: int, m: DitheringMatrix) -> Seq<bool> {
    Seq::new(gray.len(), |k: int| m.bit_at(gray[k], k % width, k / width))
}

/// The packed bitmap the threshold compute stage produces for a frame.
pub open spec fn packed_threshold_spec(gray: Seq<u8>, black: u8, white: u8) -> Seq<u8> {
    pack_bits_spec(threshold_bits_spec(gray, black, white))
}

/// The packed bitmap the ordered compute stage produces for a frame.
pub open spec fn packed_ordered_spec(gray: Seq<u8>, width: int, m: DitheringMatrix) -> Seq<u8> {
    pack_bits_spec(ordered_bits_spec(gray, width, m))
}

/// A well-formed configuration splits the frame into whole bytes.
pub proof fn lemma_pixel_count_byte_aligned(cfg: DitherConfig)
    requires
        cfg.wf(),
    ensures
        cfg.pixel_count() % 8 == 0,
{
    let w = cfg.width as int;
    let h = cfg.height as int;
    vstd::arithmetic::div_mod::lemma_fundamental_div_mod(w, 8);
    assert(w == 8 * (w / 8));
    vstd::arithmetic::mul::lemma_mul_is_associative(8, w / 8, h);
    vstd::arithmetic::div_mod::lemma_mod_multiples_basic(w / 8 * h, 8);
    assert((8 * (w / 8 * h)) % 8 == 0) by {
        vstd::arithmetic::mul::lemma_mul_is_commutative(8, w / 8 * h);
    }
}

/// Every pixel of the frame is decided exactly once, independently of all
/// others: bit `k` of the packed bitmap (MSB-first within its byte) is
/// precisely the dithering decision for pixel `k`.
pub proof fn lemma_packed_bit_is_pixel_decision(bits: Seq<bool>, k: int)
    requires
        bits.len() % 8 == 0,
        0 <= k < bits.len(),
    ensures
        bit_of_byte(pack_bits_spec(bits)[k / 8], k % 8) == bits[k],
{
    lemma_pack_unpack_roundtrip(bits);
    vstd::arithmetic::div_mod::lemma_fundamental_div_mod(bits.len() as int, 8);
    assert(unpack_bits_spec(pack_bits_spec(bits))[k] == bit_of_byte(
        pack_bits_spec(bits)[k / 8],
        k % 8,
    ));
}

/// Dithers a full frame with the threshold algorithm and packs the result
/// MSB-first into the bitmap the display expects.
pub fn pack_frame_threshold(gray: &Vec<u8>, cfg: &DitherConfig) -> (r: Vec<u8>)
    requires
        cfg.wf(),
        gray@.len() == cfg.pixel_count(),
    ensures
        r@ == packed_threshold_spec(gray@, cfg.black_level, cfg.white_level),
        r@.len() == cfg.bitmap_len(),
{
    let n = gray.len();
    let mut bits: Vec<bool> = Vec::new();
    let mut k: usize = 0;
    while k < n
        invariant
            k <= n,
            n == gray@.len(),
            bits@ =~= threshold_bits_spec(gray@, cfg.black_level, cfg.white_level).subrange(
                0,
                k as int,
            ),
        decreases n - k,
    {
        bits.push(threshold_bit(gray[k], cfg.black_level, cfg.white_level));
        k = k + 1;
    }
    proof {
        assert(bits@ =~= threshold_bits_spec(gray@, cfg.black_level, cfg.white_level));
        lemma_pixel_count_byte_aligned(*cfg);
    }
    pack_bits(&bits)
}

/// Dithers a full frame with the ordered algorithm and packs the result
/// MSB-first into the bitmap the display expects.
pub fn pack_frame_ordered(gray: &Vec<u8>, cfg: &DitherConfig, m: &DitheringMatrix) -> (r: Vec<u8>)
    requires
        cfg.wf(),
        m.wf(),
        gray@.len() == cfg.pixel_count(),
    ensures
        r@ == packed_ordered_spec(gray@, cfg.width as int, *m),
        r@.len() == cfg.bitmap_len(),
{
    let n = gray.len();
    let width = cfg.width as usize;
    let mut bits: Vec<bool> = Vec::new();
    let mut k: usize = 0;
    while k < n
        invariant
            k <= n,
            n == gray@.len(),
            n == cfg.pixel_count(),
            cfg.wf(),
            m.wf(),
            width == cfg.width,
            bits@ =~= ordered_bits_spec(gray@, cfg.width as int, *m).subrange(0, k as int),
        decreases n - k,
    {
        let x = k % width;
        let y = k / width;
        bits.push(ordered_bit(m, gray[k], x, y));
        k = k + 1;
    }
    proof {
        assert(bits@ =~= ordered_bits_spec(gray@, cfg.width as int, *m));
        lemma_pixel_count_byte_aligned(*cfg);
    }
    pack_bits(&bits)
}

/// Dithers and packs one frame under the selected algorithm. The reserved
/// `Pinwheel` variant has no defined semantics and is the one selection
/// that is rejected.
pub fn pack_frame(
    algo: DitherAlgorithm,
    gray: &Vec<u8>,
    cfg: &DitherConfig,
    m: &DitheringMatrix,
) -> (r: Result<Vec<u8>, PlanError>)
    requires
        cfg.wf(),
        m.wf(),
        gray@.len() == cfg.pixel_count(),
    ensures
        r is Err <==> algo == DitherAlgorithm::Pinwheel,
        r is Err ==> r == Result::<Vec<u8>, PlanError>::Err(PlanError::UnimplementedAlgorithm),
        algo == DitherAlgorithm::Threshold ==> r is Ok && r->Ok_0@ == packed_threshold_spec(
            gray@,
            cfg.black_level,
            cfg.white_level,
        ),
        algo == DitherAlgorithm::Ordered ==> r is Ok && r->Ok_0@ == packed_ordered_spec(
            gray@,
            cfg.width as int,
            *m,
        ),
        r is Ok ==> r->Ok_0@.len() == cfg.bitmap_len(),
{
    match algo {
        DitherAlgorithm::Threshold => Ok(pack_frame_threshold(gray, cfg)),
        DitherAlgorithm::Ordered => Ok(pack_frame_ordered(gray, cfg, m)),
        DitherAlgorithm::Pinwheel => Err(PlanError::UnimplementedAlgorithm),
    }
}

} // verus!
