//! MSB-first bit packing: eight consecutive horizontal pixels become one
//! byte of the packed bitmap, row-major, with no row padding.

use vstd::prelude::*;

verus! {

/// Bit `j` (0 = most significant) of a packed byte.
pub open spec fn bit_of_byte(byte: u8, j: int) -> bool
    recommends
        0 <= j < 8,
{
    (byte >> ((7 - j) as u8)) & 1 == 1
}

/// The byte that holds eight bits MSB-first: bit 0 of the sequence lands in
/// the most significant position.
pub open spec fn byte_from_bits(bits: Seq<bool>) -> u8
    recommends
        bits.len() == 8,
{
    ((if bits[0] { 128int } else { 0int }) + (if bits[1] { 64int } else { 0int }) + (if bits[2] {
        32int
    } else {
        0int
    }) + (if bits[3] { 16int } else { 0int }) + (if bits[4] { 8int } else { 0int }) + (if bits[5] {
        4int
    } else {
        0int
    }) + (if bits[6] { 2int } else { 0int }) + (if bits[7] { 1int } else { 0int })) as u8
}

/// Packing a bit sequence whose length is a multiple of eight.
pub open spec fn pack_bits_spec(bits: Seq<bool>) -> Seq<u8>
    recommends
        bits.len() % 8 == 0,
{
    Seq::new(bits.len() / 8, |i: int| byte_from_bits(bits.subrange(8 * i, 8 * i + 8)))
}

/// Unpacking a byte sequence back into its bits, MSB-first.
pub open spec fn unpack_bits_spec(bytes: Seq<u8>) -> Seq<bool> {
    Seq::new(bytes.len() * 8, |k: int| bit_of_byte(bytes[k / 8], k % 8))
}

/// Extracting bit `j` of a byte built from eight bits gives back bit `j`.
pub proof fn lemma_byte_bits_inverse(bits: Seq<bool>)
    requires
        bits.len() == 8,
    ensures
        forall|j: int| 0 <= j < 8 ==> bit_of_byte(byte_from_bits(bits), j) == bits[j],
{
    let x0: u8 = if bits[0] { 1 } else { 0 };
    let x1: u8 = if bits[1] { 1 } else { 0 };
    let x2: u8 = if bits[2] { 1 } else { 0 };
    let x3: u8 = if bits[3] { 1 } else { 0 };
    let x4: u8 = if bits[4] { 1 } else { 0 };
    let x5: u8 = if bits[5] { 1 } else { 0 };
    let x6: u8 = if bits[6] { 1 } else { 0 };
    let x7: u8 = if bits[7] { 1 } else { 0 };
    let v: u8 = (x0 * 128 + x1 * 64 + x2 * 32 + x3 * 16 + x4 * 8 + x5 * 4 + x6 * 2 + x7) as u8;
    assert(byte_from_bits(bits) == v);
    assert((v >> 7u8) & 1 == x0 && (v >> 6u8) & 1 == x1 && (v >> 5u8) & 1 == x2 && (v >> 4u8) & 1
        == x3 && (v >> 3u8) & 1 == x4 && (v >> 2u8) & 1 == x5 && (v >> 1u8) & 1 == x6 && (v >> 0u8)
        & 1 == x7) by (bit_vector)
        requires
            x0 <= 1 && x1 <= 1 && x2 <= 1 && x3 <= 1 && x4 <= 1 && x5 <= 1 && x6 <= 1 && x7 <= 1
                && v == (x0 * 128 + x1 * 64 + x2 * 32 + x3 * 16 + x4 * 8 + x5 * 4 + x6 * 2
                + x7) as u8,
    ;
    assert forall|j: int| 0 <= j < 8 implies bit_of_byte(v, j) == bits[j] by {
        if j == 0 {
            assert(bit_of_byte(v, 0) == ((v >> 7u8) & 1 == 1));
        } else if j == 1 {
            assert(bit_of_byte(v, 1) == ((v >> 6u8) & 1 == 1));
        } else if j == 2 {
            assert(bit_of_byte(v, 2) == ((v >> 5u8) & 1 == 1));
        } else if j == 3 {
            assert(bit_of_byte(v, 3) == ((v >> 4u8) & 1 == 1));
        } else if j == 4 {
            assert(bit_of_byte(v, 4) == ((v >> 3u8) & 1 == 1));
        } else if j == 5 {
            assert(bit_of_byte(v, 5) == ((v >> 2u8) & 1 == 1));
        } else if j == 6 {
            assert(bit_of_byte(v, 6) == ((v >> 1u8) & 1 == 1));
        } else {
            assert(bit_of_byte(v, 7) == ((v >> 0u8) & 1 == 1));
        }
    }
}

/// Packing MSB-first and unpacking again yields the original bit sequence.
pub proof fn lemma_pack_unpack_roundtrip(bits: Seq<bool>)
    requires
        bits.len() % 8 == 0,
    ensures
        unpack_bits_spec(pack_bits_spec(bits)) =~= bits,
{
    let packed = pack_bits_spec(bits);
    assert(packed.len() == bits.len() / 8);
    assert(bits.len() / 8 * 8 == bits.len()) by {
        vstd::arithmetic::div_mod::lemma_fundamental_div_mod(bits.len() as int, 8);
    }
    assert forall|k: int| 0 <= k < bits.len() implies unpack_bits_spec(packed)[k] == bits[k] by {
        let i = k / 8;
        let j = k % 8;
        vstd::arithmetic::div_mod::lemma_fundamental_div_mod(k, 8);
        vstd::arithmetic::div_mod::lemma_mod_bound(k, 8);
        vstd::arithmetic::div_mod::lemma_div_pos_is_pos(k, 8);
        assert(0 <= i < packed.len()) by {
            vstd::arithmetic::div_mod::lemma_div_is_ordered(k, bits.len() as int - 1, 8);
            vstd::arithmetic::div_mod::lemma_fundamental_div_mod(bits.len() as int, 8);
        }
        let chunk = bits.subrange(8 * i, 8 * i + 8);
        lemma_byte_bits_inverse(chunk);
        assert(chunk[j] == bits[8 * i + j]);
        assert(unpack_bits_spec(packed)[k] == bit_of_byte(packed[i], j));
    }
}

/// Packs a boolean pixel row into bytes, MSB-first, eight pixels per byte.
pub fn pack_bits(bits: &Vec<bool>) -> (r: Vec<u8>)
    requires
        bits@.len() % 8 == 0,
    ensures
        r@ == pack_bits_spec(bits@),
{
    let n_bytes: usize = bits.len() / 8;
    proof {
        vstd::arithmetic::div_mod::lemma_fundamental_div_mod(bits@.len() as int, 8);
    }
    let mut r: Vec<u8> = Vec::new();
    let mut i: usize = 0;
    while i < n_bytes
        invariant
            i <= n_bytes,
            n_bytes == bits@.len() / 8,
            bits@.len() % 8 == 0,
            8 * n_bytes == bits@.len(),
            bits@.len() <= usize::MAX,
            r@ =~= pack_bits_spec(bits@).subrange(0, i as int),
        decreases n_bytes - i,
    {
        proof {
            vstd::arithmetic::div_mod::lemma_fundamental_div_mod(bits@.len() as int, 8);
        }
        let base: usize = 8 * i;
        let b: u8 = (if bits[base] { 128u8 } else { 0u8 }) + (if bits[base + 1] {
            64u8
        } else {
            0u8
        }) + (if bits[base + 2] { 32u8 } else { 0u8 }) + (if bits[base + 3] { 16u8 } else { 0u8 })
            + (if bits[base + 4] { 8u8 } else { 0u8 }) + (if bits[base + 5] { 4u8 } else { 0u8 })
            + (if bits[base + 6] { 2u8 } else { 0u8 }) + (if bits[base + 7] { 1u8 } else { 0u8 });
        proof {
            let chunk = bits@.subrange(8 * i as int, 8 * i as int + 8);
            assert(chunk[0] == bits@[8 * i as int] && chunk[1] == bits@[8 * i as int + 1] && chunk[2]
                == bits@[8 * i as int + 2] && chunk[3] == bits@[8 * i as int + 3] && chunk[4]
                == bits@[8 * i as int + 4] && chunk[5] == bits@[8 * i as int + 5] && chunk[6]
                == bits@[8 * i as int + 6] && chunk[7] == bits@[8 * i as int + 7]);
            assert(b == byte_from_bits(chunk));
        }
        r.push(b);
        i = i + 1;
        proof {
            assert(r@ =~= pack_bits_spec(bits@).subrange(0, i as int));
        }
    }
    proof {
        assert(r@ =~= pack_bits_spec(bits@));
    }
    r
}

/// Unpacks a packed bitmap back into one boolean per pixel, MSB-first.
pub fn unpack_bits(bytes: &Vec<u8>) -> (r: Vec<bool>)
    requires
        bytes@.len() * 8 <= usize::MAX,
    ensures
        r@ == unpack_bits_spec(bytes@),
{
    let n_bits: usize = bytes.len() * 8;
    let mut r: Vec<bool> = Vec::new();
    let mut k: usize = 0;
    while k < n_bits
        invariant
            k <= n_bits,
            n_bits == bytes@.len() * 8,
            r@ =~= unpack_bits_spec(bytes@).subrange(0, k as int),
        decreases n_bits - k,
    {
        let idx: usize = k / 8;
        let rem: usize = k % 8;
        proof {
            vstd::arithmetic::div_mod::lemma_mod_bound(k as int, 8);
            vstd::arithmetic::div_mod::lemma_fundamental_div_mod(k as int, 8);
            vstd::arithmetic::div_mod::lemma_div_pos_is_pos(k as int, 8);
            assert(idx < bytes@.len()) by {
                vstd::arithmetic::div_mod::lemma_div_is_ordered(k as int, n_bits as int - 1, 8);
                vstd::arithmetic::div_mod::lemma_fundamental_div_mod(n_bits as int - rem as int, 8);
            }
        }
        let sh: u8 = (7 - rem) as u8;
        let bit: bool = ((bytes[idx] >> sh) & 1) == 1;
        proof {
            assert(bit == bit_of_byte(bytes@[idx as int], rem as int));
        }
        r.push(bit);
        k = k + 1;
        proof {
            assert(r@ =~= unpack_bits_spec(bytes@).subrange(0, k as int));
        }
    }
    proof {
        assert(r@ =~= unpack_bits_spec(bytes@));
    }
    r
}

} // verus!
