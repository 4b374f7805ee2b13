//! The transport's block protocol: a packed bitmap is split into fixed-size
//! payload chunks, each prefixed with its little-endian byte offset into
//! the display's framebuffer, written strictly in ascending offset order.
//! The primary variant uses a four-byte offset header; an alternate
//! hardware revision uses a two-byte header and terminates each frame with
//! the sentinel bytes `0xFF 0xFF`.

use bytes::BufMut;
use vstd::prelude::*;

verus! {

/// Total block size on the wire in the primary protocol variant, header
/// included.
pub const BLOCK_SIZE: usize = 64;

/// Bytes of the offset header in the primary protocol variant.
pub const HEADER32_SIZE: usize = 4;

/// Payload bytes per block in the primary protocol variant.
pub const PAYLOAD32_SIZE: usize = BLOCK_SIZE - HEADER32_SIZE;

#[verifier::external_type_specification]
#[verifier::external_body]
pub struct ExBytesMut(bytes::BytesMut);

/// The bytes written into a builder so far, in order.
pub uninterp spec fn bytes_mut_contents(b: bytes::BytesMut) -> Seq<u8>;

/// The four bytes of a 32-bit value in little-endian order.
pub open spec fn u32_le_bytes(v: u32) -> Seq<u8> {
    seq![(v & 0xff) as u8, ((v >> 8u32) & 0xff) as u8, ((v >> 16u32) & 0xff) as u8, ((v
        >> 24u32) & 0xff) as u8]
}

/// The two bytes of a 16-bit value in little-endian order.
pub open spec fn u16_le_bytes(v: u16) -> Seq<u8> {
    seq![(v & 0xff) as u8, ((v >> 8u16) & 0xff) as u8]
}

/// Relies on bytes::BytesMut::new: a fresh builder holds no bytes.
#[verifier::external_body]
fn bytes_mut_new() -> (b: bytes::BytesMut)
    ensures
        bytes_mut_contents(b) == Seq::<u8>::empty(),
{
    bytes::BytesMut::new()
}

/// Relies on bytes::BufMut::put_u32_le on BytesMut: appends the value's
/// four little-endian bytes, growing the buffer as needed.
#[verifier::external_body]
fn bytes_mut_put_u32_le(b: &mut bytes::BytesMut, v: u32)
    requires
        bytes_mut_contents(*old(b)).len() + 4 <= 0x7fff_ffff,
    ensures
        bytes_mut_contents(*final(b)) == bytes_mut_contents(*old(b)) + u32_le_bytes(v),
{
    b.put_u32_le(v)
}

/// Relies on bytes::BufMut::put_u16_le on BytesMut: appends the value's
/// two little-endian bytes, growing the buffer as needed.
#[verifier::external_body]
fn bytes_mut_put_u16_le(b: &mut bytes::BytesMut, v: u16)
    requires
        bytes_mut_contents(*old(b)).len() + 2 <= 0x7fff_ffff,
    ensures
        bytes_mut_contents(*final(b)) == bytes_mut_contents(*old(b)) + u16_le_bytes(v),
{
    b.put_u16_le(v)
}

/// Relies on bytes::BufMut::put_slice on BytesMut: appends the given bytes,
/// growing the buffer as needed.
#[verifier::external_body]
fn bytes_mut_put_slice(b: &mut bytes::BytesMut, src: &Vec<u8>)
    requires
        bytes_mut_contents(*old(b)).len() + src@.len() <= 0x7fff_ffff,
    ensures
        bytes_mut_contents(*final(b)) == bytes_mut_contents(*old(b)) + src@,
{
    b.put_slice(src.as_slice())
}

/// Relies on BytesMut's AsRef<[u8]>: reading the builder back yields
/// exactly the bytes written, in order.
#[verifier::external_body]
fn bytes_mut_to_vec(b: &bytes::BytesMut) -> (r: Vec<u8>)
    ensures
        r@ == bytes_mut_contents(*b),
{
    b.as_ref().to_vec()
}

/// The payload chunks of a frame, in offset order: full chunks of `p`
/// bytes, with one final short chunk when the length is not a multiple of
/// `p`.
pub open spec fn chunk_payloads(frame: Seq<u8>, p: int) -> Seq<Seq<u8>>
    recommends
        p >= 1,
    decreases frame.len(),
{
    if frame.len() == 0 || p < 1 {
        Seq::empty()
    } else if frame.len() <= p {
        seq![frame]
    } else {
        seq![frame.take(p)] + chunk_payloads(frame.skip(p), p)
    }
}

/// A frame of length `L` splits into exactly `ceil(L / p)` chunks.
pub proof fn lemma_chunk_count(frame: Seq<u8>, p: int)
    requires
        p >= 1,
    ensures
        chunk_payloads(frame, p).len() == (frame.len() + p - 1) / p,
    decreases frame.len(),
{
    let n = frame.len() as int;
    if n == 0 {
        vstd::arithmetic::div_mod::lemma_fundamental_div_mod_converse(p - 1, p, 0, p - 1);
    } else if n <= p {
        vstd::arithmetic::div_mod::lemma_fundamental_div_mod_converse(n + p - 1, p, 1, n - 1);
    } else {
        lemma_chunk_count(frame.skip(p), p);
        let q = (n - 1) / p;
        let r = (n - 1) % p;
        vstd::arithmetic::div_mod::lemma_fundamental_div_mod(n - 1, p);
        vstd::arithmetic::div_mod::lemma_mod_bound(n - 1, p);
        vstd::arithmetic::mul::lemma_mul_is_distributive_add_other_way(p, q, 1);
        vstd::arithmetic::div_mod::lemma_fundamental_div_mod_converse(n + p - 1, p, q + 1, r);
    }
}

/// A chunk's byte offset always lies inside the frame.
pub proof fn lemma_chunk_offset_in_range(frame: Seq<u8>, p: int, i: int)
    requires
        p >= 1,
        0 <= i < chunk_payloads(frame, p).len(),
    ensures
        i * p < frame.len(),
{
    let n = frame.len() as int;
    lemma_chunk_count(frame, p);
    let m = (n + p - 1) / p;
    vstd::arithmetic::div_mod::lemma_fundamental_div_mod(n + p - 1, p);
    vstd::arithmetic::div_mod::lemma_mod_bound(n + p - 1, p);
    vstd::arithmetic::mul::lemma_mul_is_distributive_sub_other_way(p, m, 1);
    assert((m - 1) * p <= n - 1);
    vstd::arithmetic::mul::lemma_mul_inequality(i, m - 1, p);
}

/// Chunk `i` is exactly the frame bytes from offset `i * p` up to the next
/// chunk boundary or the end of the frame, whichever comes first.
pub proof fn lemma_chunk_payloads_index(frame: Seq<u8>, p: int, i: int)
    requires
        p >= 1,
        0 <= i < chunk_payloads(frame, p).len(),
    ensures
        chunk_payloads(frame, p)[i] == frame.subrange(
            i * p,
            if (i + 1) * p <= frame.len() {
                (i + 1) * p
            } else {
                frame.len() as int
            },
        ),
    decreases frame.len(),
{
    let n = frame.len() as int;
    let chunks = chunk_payloads(frame, p);
    if n <= p {
        assert(i == 0);
        vstd::arithmetic::mul::lemma_mul_basics(p);
        assert(chunks[0] =~= frame.subrange(0, n));
    } else if i == 0 {
        vstd::arithmetic::mul::lemma_mul_basics(p);
        assert(chunks[0] =~= frame.subrange(0, p));
    } else {
        lemma_chunk_payloads_index(frame.skip(p), p, i - 1);
        lemma_chunk_offset_in_range(frame.skip(p), p, i - 1);
        vstd::arithmetic::mul::lemma_mul_is_distributive_add_other_way(p, i - 1, 1);
        vstd::arithmetic::mul::lemma_mul_is_distributive_add_other_way(p, i, 1);
        vstd::arithmetic::mul::lemma_mul_nonnegative(i - 1, p);
        let lo = (i - 1) * p;
        let hi = if i * p <= n - p {
            i * p
        } else {
            n - p
        };
        assert(chunks[i] == chunk_payloads(frame.skip(p), p)[i - 1]);
        assert(0 <= lo < n - p);
        assert(lo <= hi <= n - p);
        assert forall|j: int| 0 <= j < hi - lo implies frame.skip(p).subrange(lo, hi)[j]
            == frame.subrange(lo + p, hi + p)[j] by {
            assert(frame.skip(p).subrange(lo, hi)[j] == frame.skip(p)[lo + j]);
            assert(frame.skip(p)[lo + j] == frame[p + lo + j]);
            assert(frame.subrange(lo + p, hi + p)[j] == frame[lo + p + j]);
        }
        assert(frame.skip(p).subrange(lo, hi) =~= frame.subrange(lo + p, hi + p));
    }
}

/// Reassembling the chunks in offset order reproduces the original frame
/// exactly, including a final short chunk when `p` does not divide the
/// length.
pub proof fn lemma_blocks_reconstruct(frame: Seq<u8>, p: int)
    requires
        p >= 1,
    ensures
        chunk_payloads(frame, p).flatten() == frame,
    decreases frame.len(),
{
    let n = frame.len() as int;
    let chunks = chunk_payloads(frame, p);
    if n == 0 {
        assert(chunks.flatten() =~= frame);
    } else if n <= p {
        chunks.lemma_flatten_one_element();
        assert(chunks.flatten() =~= frame);
    } else {
        lemma_blocks_reconstruct(frame.skip(p), p);
        assert(chunks.drop_first() =~= chunk_payloads(frame.skip(p), p));
        assert(chunks.first() == frame.take(p));
        assert(chunks.flatten() == frame.take(p) + chunk_payloads(frame.skip(p), p).flatten());
        assert(frame.take(p) + frame.skip(p) =~= frame);
    }
}

/// Copies `frame[start..end]` into an owned buffer.
fn copy_range(frame: &Vec<u8>, start: usize, end: usize) -> (r: Vec<u8>)
    requires
        start <= end,
        end <= frame@.len(),
    ensures
        r@ == frame@.subrange(start as int, end as int),
{
    let mut r: Vec<u8> = Vec::new();
    let mut k: usize = start;
    while k < end
        invariant
            start <= k <= end,
            end <= frame@.len(),
            r@ =~= frame@.subrange(start as int, k as int),
        decreases end - k,
    {
        r.push(frame[k]);
        k = k + 1;
        proof {
            assert(r@ =~= frame@.subrange(start as int, k as int));
        }
    }
    proof {
        assert(r@ =~= frame@.subrange(start as int, end as int));
    }
    r
}

/// Encodes one block of the primary protocol: the byte offset as a 32-bit
/// little-endian header, followed by the payload.
pub fn encode_block32(offset: u32, payload: &Vec<u8>) -> (r: Vec<u8>)
    requires
        payload@.len() + 4 <= 0x7fff_ffff,
    ensures
        r@ == u32_le_bytes(offset) + payload@,
{
    let mut buf = bytes_mut_new();
    bytes_mut_put_u32_le(&mut buf, offset);
    bytes_mut_put_slice(&mut buf, payload);
    let r = bytes_mut_to_vec(&buf);
    proof {
        assert(r@ =~= u32_le_bytes(offset) + payload@);
    }
    r
}

/// Encodes one block of the alternate protocol: the byte offset as a
/// 16-bit little-endian header, followed by the payload.
pub fn encode_block16(offset: u16, payload: &Vec<u8>) -> (r: Vec<u8>)
    requires
        payload@.len() + 2 <= 0x7fff_ffff,
    ensures
        r@ == u16_le_bytes(offset) + payload@,
{
    let mut buf = bytes_mut_new();
    bytes_mut_put_u16_le(&mut buf, offset);
    bytes_mut_put_slice(&mut buf, payload);
    let r = bytes_mut_to_vec(&buf);
    proof {
        assert(r@ =~= u16_le_bytes(offset) + payload@);
    }
    r
}

/// Splits a frame into wire blocks of the primary protocol: payloads of
/// `payload_size` bytes (the last one possibly shorter), each prefixed
/// with its 32-bit little-endian byte offset, in ascending offset order.
pub fn frame_to_blocks32(frame: &Vec<u8>, payload_size: usize) -> (blocks: Vec<Vec<u8>>)
    requires
        1 <= payload_size <= 0x7fff_fff0,
        frame@.len() <= u32::MAX,
    ensures
        blocks@.len() == chunk_payloads(frame@, payload_size as int).len(),
        forall|i: int|
            0 <= i < blocks@.len() ==> blocks@[i]@ == u32_le_bytes((i * payload_size) as u32)
                + chunk_payloads(frame@, payload_size as int)[i],
{
    let n = frame.len();
    let p = payload_size;
    let mut blocks: Vec<Vec<u8>> = Vec::new();
    let mut start: usize = 0;
    proof {
        vstd::arithmetic::mul::lemma_mul_basics(p as int);
    }
    while start < n
        invariant
            1 <= p <= 0x7fff_fff0,
            n == frame@.len(),
            n <= u32::MAX,
            start <= n,
            start == if blocks@.len() * p <= n {
                blocks@.len() * p
            } else {
                n as int
            },
            blocks@.len() == 0 || (blocks@.len() - 1) * p < n,
            forall|i: int|
                0 <= i < blocks@.len() ==> #[trigger] blocks@[i]@ == u32_le_bytes((i
                    * p) as u32) + frame@.subrange(
                    i * p,
                    if (i + 1) * p <= n {
                        (i + 1) * p
                    } else {
                        n as int
                    },
                ),
        decreases n - start,
    {
        let ghost k = blocks@.len() as int;
        proof {
            vstd::arithmetic::mul::lemma_mul_is_distributive_add_other_way(p as int, k, 1);
        }
        let end = if n - start < p {
            n
        } else {
            start + p
        };
        let payload = copy_range(frame, start, end);
        let block = encode_block32(start as u32, &payload);
        blocks.push(block);
        proof {
            assert(blocks@[k]@ == u32_le_bytes((k * p) as u32) + frame@.subrange(
                k * p,
                if (k + 1) * p <= n {
                    (k + 1) * p
                } else {
                    n as int
                },
            ));
        }
        start = end;
    }
    proof {
        let chunks = chunk_payloads(frame@, p as int);
        let m = blocks@.len() as int;
        lemma_block_count_matches(n as int, p as int, m);
        lemma_chunk_count(frame@, p as int);
        assert(chunks.len() == m);
        assert forall|i: int| 0 <= i < m implies blocks@[i]@ == u32_le_bytes((i * p) as u32)
            + chunks[i] by {
            lemma_chunk_payloads_index(frame@, p as int, i);
        }
    }
    blocks
}

/// The loop that walks a frame in steps of `p` emits exactly `ceil(n / p)`
/// blocks: at exit the block count times the payload size first reaches or
/// passes the frame length.
proof fn lemma_block_count_matches(n: int, p: int, m: int)
    requires
        p >= 1,
        n >= 0,
        m >= 0,
        n == if m * p <= n {
            m * p
        } else {
            n
        },
        m == 0 || (m - 1) * p < n,
    ensures
        m == (n + p - 1) / p,
{
    if m * p <= n {
        assert(n == m * p);
        vstd::arithmetic::div_mod::lemma_fundamental_div_mod_converse(n + p - 1, p, m, p - 1);
    } else {
        assert(m >= 1) by {
            if m == 0 {
                assert(m * p == 0);
            }
        }
        assert((m - 1) * p < n);
        let r = n - (m - 1) * p;
        assert((m - 1) * p == m * p - p) by {
            vstd::arithmetic::mul::lemma_mul_is_distributive_sub_other_way(p, m, 1);
        }
        assert(0 < r < p + 1);
        vstd::arithmetic::div_mod::lemma_fundamental_div_mod_converse(n + p - 1, p, m, r - 1);
    }
}

/// Splits a frame into wire blocks of the alternate protocol: payloads
/// prefixed with a 16-bit little-endian byte offset, in ascending offset
/// order, followed by one end-of-frame marker block holding the sentinel
/// bytes `0xFF 0xFF`.
pub fn frame_to_blocks16(frame: &Vec<u8>, payload_size: usize) -> (blocks: Vec<Vec<u8>>)
    requires
        1 <= payload_size <= 0x7fff_fff0,
        frame@.len() <= u16::MAX,
    ensures
        blocks@.len() == chunk_payloads(frame@, payload_size as int).len() + 1,
        forall|i: int|
            0 <= i < blocks@.len() - 1 ==> blocks@[i]@ == u16_le_bytes((i * payload_size) as u16)
                + chunk_payloads(frame@, payload_size as int)[i],
        blocks@[blocks@.len() - 1]@ == seq![0xffu8, 0xffu8],
{
    let n = frame.len();
    let p = payload_size;
    let mut blocks: Vec<Vec<u8>> = Vec::new();
    let mut start: usize = 0;
    proof {
        vstd::arithmetic::mul::lemma_mul_basics(p as int);
    }
    while start < n
        invariant
            1 <= p <= 0x7fff_fff0,
            n == frame@.len(),
            n <= u16::MAX,
            start <= n,
            start == if blocks@.len() * p <= n {
                blocks@.len() * p
            } else {
                n as int
            },
            blocks@.len() == 0 || (blocks@.len() - 1) * p < n,
            forall|i: int|
                0 <= i < blocks@.len() ==> #[trigger] blocks@[i]@ == u16_le_bytes((i
                    * p) as u16) + frame@.subrange(
                    i * p,
                    if (i + 1) * p <= n {
                        (i + 1) * p
                    } else {
                        n as int
                    },
                ),
        decreases n - start,
    {
        let ghost k = blocks@.len() as int;
        proof {
            vstd::arithmetic::mul::lemma_mul_is_distributive_add_other_way(p as int, k, 1);
        }
        let end = if n - start < p {
            n
        } else {
            start + p
        };
        let payload = copy_range(frame, start, end);
        let block = encode_block16(start as u16, &payload);
        blocks.push(block);
        proof {
            assert(blocks@[k]@ == u16_le_bytes((k * p) as u16) + frame@.subrange(
                k * p,
                if (k + 1) * p <= n {
                    (k + 1) * p
                } else {
                    n as int
                },
            ));
        }
        start = end;
    }
    proof {
        let chunks = chunk_payloads(frame@, p as int);
        let m = blocks@.len() as int;
        lemma_block_count_matches(n as int, p as int, m);
        lemma_chunk_count(frame@, p as int);
        assert(chunks.len() == m);
        assert forall|i: int| 0 <= i < m implies blocks@[i]@ == u16_le_bytes((i * p) as u16)
            + chunks[i] by {
            lemma_chunk_payloads_index(frame@, p as int, i);
        }
    }
    let mut terminator: Vec<u8> = Vec::new();
    terminator.push(0xff);
    terminator.push(0xff);
    proof {
        assert(terminator@ =~= seq![0xffu8, 0xffu8]);
    }
    blocks.push(terminator);
    blocks
}

} // verus!
