//! The standalone capture path works on flat RGB triples: a plain
//! threshold turns a grayscale frame into black/white RGB for the preview,
//! and the transport packs RGB triples back into the 1-bit wire bitmap,
//! eight pixels per byte, MSB-first, the trailing byte zero-padded.

use crate::packing::pack_bits;
use crate::packing::pack_bits_spec;
use vstd::prelude::*;

verus! {

/// Grayscale thresholded to full-on/full-off RGB triples: each pixel above
/// the cutoff becomes three `0xFF` samples, every other pixel three zeros.
pub open spec fn rgb_expand_spec(gray: Seq<u8>, cutoff: u8) -> Seq<u8> {
    Seq::new(3 * gray.len(), |j: int| if gray[j / 3] > cutoff { 0xffu8 } else { 0u8 })
}

/// Number of pixels encoded by a flat RGB byte sequence.
pub open spec fn rgb_pixel_count(frame: Seq<u8>) -> int {
    frame.len() as int / 3
}

/// Whether an RGB pixel counts as lit: the sum of its three samples lies
/// above three times the cutoff.
pub open spec fn rgb_pixel_lit(frame: Seq<u8>, k: int, cutoff: u8) -> bool {
    frame[3 * k] + frame[3 * k + 1] + frame[3 * k + 2] > 3 * cutoff
}

/// One dithering decision per RGB pixel, padded with unlit pixels up to
/// the next multiple of eight so whole bytes can be packed.
pub open spec fn rgb_bits_spec(frame: Seq<u8>, cutoff: u8) -> Seq<bool> {
    let pixels = rgb_pixel_count(frame);
    Seq::new(
        ((pixels + 7) / 8 * 8) as nat,
        |k: int| k < pixels && rgb_pixel_lit(frame, k, cutoff),
    )
}

/// Expands a grayscale frame into black/white RGB triples by a plain
/// threshold: lit pixels become white, all others black.
pub fn threshold_to_rgb(gray: &Vec<u8>, cutoff: u8) -> (r: Vec<u8>)
    requires
        gray@.len() * 3 <= usize::MAX,
    ensures
        r@ == rgb_expand_spec(gray@, cutoff),
{
    let n: usize = gray.len();
    let mut r: Vec<u8> = Vec::new();
    let mut k: usize = 0;
    while k < n
        invariant
            k <= n,
            n == gray@.len(),
            n * 3 <= usize::MAX,
            r@.len() == 3 * k,
            forall|j: int| 0 <= j < 3 * k ==> r@[j] == rgb_expand_spec(gray@, cutoff)[j],
        decreases n - k,
    {
        let v: u8 = if gray[k] > cutoff {
            0xff
        } else {
            0
        };
        r.push(v);
        r.push(v);
        r.push(v);
        proof {
            vstd::arithmetic::div_mod::lemma_fundamental_div_mod_converse(
                3 * k as int,
                3,
                k as int,
                0,
            );
            vstd::arithmetic::div_mod::lemma_fundamental_div_mod_converse(
                3 * k as int + 1,
                3,
                k as int,
                1,
            );
            vstd::arithmetic::div_mod::lemma_fundamental_div_mod_converse(
                3 * k as int + 2,
                3,
                k as int,
                2,
            );
        }
        k = k + 1;
    }
    proof {
        assert(r@ =~= rgb_expand_spec(gray@, cutoff));
    }
    r
}

/// Packs a flat RGB frame into the 1-bit wire bitmap: a pixel is lit when
/// its three samples sum above three times the cutoff; bits are packed
/// MSB-first, eight pixels per byte, and the final byte is zero-padded
/// when the pixel count is not a multiple of eight.
pub fn pack_rgb_threshold(frame: &Vec<u8>, cutoff: u8) -> (r: Vec<u8>)
    requires
        frame@.len() % 3 == 0,
    ensures
        r@ == pack_bits_spec(rgb_bits_spec(frame@, cutoff)),
{
    let pixels: usize = frame.len() / 3;
    let ghost all_bits = rgb_bits_spec(frame@, cutoff);
    proof {
        vstd::arithmetic::div_mod::lemma_fundamental_div_mod(frame@.len() as int, 3);
        assert(3 * pixels == frame@.len());
        vstd::arithmetic::div_mod::lemma_fundamental_div_mod(pixels as int + 7, 8);
        vstd::arithmetic::div_mod::lemma_mod_bound(pixels as int + 7, 8);
        vstd::arithmetic::div_mod::lemma_div_pos_is_pos(pixels as int + 7, 8);
    }
    let mut bits: Vec<bool> = Vec::new();
    let mut k: usize = 0;
    while k < pixels
        invariant
            k <= pixels,
            pixels == rgb_pixel_count(frame@),
            3 * pixels == frame@.len(),
            frame@.len() <= usize::MAX,
            all_bits == rgb_bits_spec(frame@, cutoff),
            pixels <= all_bits.len(),
            bits@.len() == k,
            forall|j: int| 0 <= j < k ==> bits@[j] == all_bits[j],
        decreases pixels - k,
    {
        let base: usize = 3 * k;
        let sum: u16 = frame[base] as u16 + frame[base + 1] as u16 + frame[base + 2] as u16;
        let lit: bool = sum > 3 * (cutoff as u16);
        bits.push(lit);
        k = k + 1;
    }
    let padded: usize = (pixels + 7) / 8 * 8;
    proof {
        assert(padded == all_bits.len());
        vstd::arithmetic::div_mod::lemma_fundamental_div_mod(pixels as int + 7, 8);
        vstd::arithmetic::div_mod::lemma_mod_bound(pixels as int + 7, 8);
        assert(pixels <= padded < pixels + 8);
        vstd::arithmetic::div_mod::lemma_mod_multiples_basic((pixels as int + 7) / 8, 8);
    }
    while bits.len() < padded
        invariant
            pixels <= bits@.len() <= padded,
            pixels == rgb_pixel_count(frame@),
            all_bits == rgb_bits_spec(frame@, cutoff),
            padded == all_bits.len(),
            forall|j: int| 0 <= j < bits@.len() ==> bits@[j] == all_bits[j],
        decreases padded - bits@.len(),
    {
        bits.push(false);
        proof {
            let j = bits@.len() - 1;
            assert(!(j < pixels));
            assert(all_bits[j] == false);
        }
    }
    proof {
        assert(bits@ =~= all_bits);
        assert(all_bits.len() % 8 == 0) by {
            vstd::arithmetic::div_mod::lemma_mod_multiples_basic((pixels as int + 7) / 8, 8);
        }
    }
    pack_bits(&bits)
}

} // verus!
