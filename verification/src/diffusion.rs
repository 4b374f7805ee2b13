//! The reference CPU error-diffusion path: a gamma-correction lookup per
//! pixel, then a strictly sequential raster-order pass that snaps each
//! pixel to the nearer of the black and white levels and propagates an
//! eighth of the quantization error to the undecided neighbors on the
//! right and below, clamped to the level range. The output repeats each
//! decided sample three times, as flat RGB triples.

use vstd::prelude::*;

verus! {

/// The gamma-correction lookup table: one output sample per input sample.
pub open spec fn gamma_table_spec() -> Seq<i16> {
    seq![
        0i16,
        0i16,
        0i16,
        0i16,
        0i16,
        0i16,
        0i16,
        0i16,
        0i16,
        0i16,
        0i16,
        0i16,
        0i16,
        0i16,
        0i16,
        1i16,
        1i16,
        1i16,
        1i16,
        1i16,
        1i16,
        1i16,
        1i16,
        1i16,
        1i16,
        2i16,
        2i16,
        2i16,
        2i16,
        2i16,
        2i16,
        2i16,
        3i16,
        3i16,
        3i16,
        3i16,
        3i16,
        4i16,
        4i16,
        4i16,
        4i16,
        5i16,
        5i16,
        5i16,
        5i16,
        6i16,
        6i16,
        6i16,
        6i16,
        7i16,
        7i16,
        7i16,
        8i16,
        8i16,
        8i16,
        9i16,
        9i16,
        9i16,
        10i16,
        10i16,
        11i16,
        11i16,
        11i16,
        12i16,
        12i16,
        13i16,
        13i16,
        13i16,
        14i16,
        14i16,
        15i16,
        15i16,
        16i16,
        16i16,
        17i16,
        17i16,
        18i16,
        18i16,
        19i16,
        19i16,
        20i16,
        20i16,
        21i16,
        22i16,
        22i16,
        23i16,
        23i16,
        24i16,
        25i16,
        25i16,
        26i16,
        26i16,
        27i16,
        28i16,
        28i16,
        29i16,
        30i16,
        30i16,
        31i16,
        32i16,
        33i16,
        33i16,
        34i16,
        35i16,
        35i16,
        36i16,
        37i16,
        38i16,
        39i16,
        39i16,
        40i16,
        41i16,
        42i16,
        43i16,
        43i16,
        44i16,
        45i16,
        46i16,
        47i16,
        48i16,
        49i16,
        49i16,
        50i16,
        51i16,
        52i16,
        53i16,
        54i16,
        55i16,
        56i16,
        57i16,
        58i16,
        59i16,
        60i16,
        61i16,
        62i16,
        63i16,
        64i16,
        65i16,
        66i16,
        67i16,
        68i16,
        69i16,
        70i16,
        71i16,
        73i16,
        74i16,
        75i16,
        76i16,
        77i16,
        78i16,
        79i16,
        81i16,
        82i16,
        83i16,
        84i16,
        85i16,
        87i16,
        88i16,
        89i16,
        90i16,
        91i16,
        93i16,
        94i16,
        95i16,
        97i16,
        98i16,
        99i16,
        100i16,
        102i16,
        103i16,
        105i16,
        106i16,
        107i16,
        109i16,
        110i16,
        111i16,
        113i16,
        114i16,
        116i16,
        117i16,
        119i16,
        120i16,
        121i16,
        123i16,
        124i16,
        126i16,
        127i16,
        129i16,
        130i16,
        132i16,
        133i16,
        135i16,
        137i16,
        138i16,
        140i16,
        141i16,
        143i16,
        145i16,
        146i16,
        148i16,
        149i16,
        151i16,
        153i16,
        154i16,
        156i16,
        158i16,
        159i16,
        161i16,
        163i16,
        165i16,
        166i16,
        168i16,
        170i16,
        172i16,
        173i16,
        175i16,
        177i16,
        179i16,
        181i16,
        182i16,
        184i16,
        186i16,
        188i16,
        190i16,
        192i16,
        194i16,
        196i16,
        197i16,
        199i16,
        201i16,
        203i16,
        205i16,
        207i16,
        209i16,
        211i16,
        213i16,
        215i16,
        217i16,
        219i16,
        221i16,
        223i16,
        225i16,
        227i16,
        229i16,
        231i16,
        234i16,
        236i16,
        238i16,
        240i16,
        242i16,
        244i16,
        246i16,
        248i16,
        251i16,
        253i16,
        255i16,
    ]
}

/// A signed magnitude.
pub open spec fn abs_val(v: int) -> int {
    if v >= 0 {
        v
    } else {
        -v
    }
}

/// Division by eight truncating toward zero, as machine division does.
pub open spec fn div8_trunc(e: int) -> int {
    if e >= 0 {
        e / 8
    } else {
        -((-e) / 8)
    }
}

/// A value forced into the closed level range.
pub open spec fn clamp_level(v: int, black: int, white: int) -> int {
    if v > white {
        white
    } else if v < black {
        black
    } else {
        v
    }
}

/// Adds a share of the quantization error to one undecided cell, clamped
/// to the level range.
pub open spec fn add_clamped(buf: Seq<int>, idx: int, delta: int, black: int, white: int) -> Seq<
    int,
> {
    buf.update(idx, clamp_level(buf[idx] + delta, black, white))
}

/// The buffer as integers after gamma correction of the input frame.
pub open spec fn gamma_mapped(gray: Seq<u8>) -> Seq<int> {
    Seq::new(gray.len(), |k: int| gamma_table_spec()[gray[k] as int] as int)
}

/// One raster-order diffusion step: decide pixel `(x, y)` to the nearer
/// level, then push three eighths of the error right, three eighths down,
/// and two eighths diagonally, skipping coordinates outside the frame.
pub open spec fn diffuse_step(
    buf: Seq<int>,
    w: int,
    h: int,
    x: int,
    y: int,
    black: int,
    white: int,
) -> Seq<int> {
    let idx = y * w + x;
    let pv = buf[idx];
    let pixel = if abs_val(pv - black) >= abs_val(pv - white) {
        white
    } else {
        black
    };
    let err = div8_trunc(pv - pixel);
    let b1 = if x + 1 < w {
        add_clamped(buf, idx + 1, 3 * err, black, white)
    } else {
        buf
    };
    let b2 = if y + 1 < h {
        add_clamped(b1, idx + w, 3 * err, black, white)
    } else {
        b1
    };
    let b3 = if x + 1 < w && y + 1 < h {
        add_clamped(b2, idx + w + 1, 2 * err, black, white)
    } else {
        b2
    };
    b3.update(idx, pixel)
}

/// The buffer after the first `k` pixels, in raster order, have been
/// decided and their error diffused.
pub open spec fn diffuse_upto(
    buf0: Seq<int>,
    w: int,
    h: int,
    black: int,
    white: int,
    k: int,
) -> Seq<int>
    decreases k,
{
    if k <= 0 {
        buf0
    } else {
        let prev = diffuse_upto(buf0, w, h, black, white, k - 1);
        diffuse_step(prev, w, h, (k - 1) % w, (k - 1) / w, black, white)
    }
}

/// The fully diffused frame: gamma correction, then the sequential pass
/// over every pixel.
pub open spec fn diffused_frame(gray: Seq<u8>, w: int, h: int, black: int, white: int) -> Seq<
    int,
> {
    diffuse_upto(gamma_mapped(gray), w, h, black, white, w * h)
}

/// Raster coordinates of pixel `q` in a `w` by `h` frame, with the bounds
/// of the pixel itself and of the cells its error is diffused into.
pub proof fn lemma_raster_coords(q: int, w: int, h: int)
    requires
        w >= 1,
        0 <= q < w * h,
    ensures
        0 <= q % w < w,
        0 <= q / w < h,
        (q / w) * w + (q % w) == q,
        q % w + 1 < w ==> q + 1 < w * h,
        q / w + 1 < h ==> ((q / w) + 1) * w + (q % w) == q + w && q + w < w * h,
        q % w + 1 < w && q / w + 1 < h ==> q + w + 1 < w * h,
{
    let x = q % w;
    let y = q / w;
    vstd::arithmetic::div_mod::lemma_fundamental_div_mod(q, w);
    vstd::arithmetic::div_mod::lemma_mod_bound(q, w);
    vstd::arithmetic::div_mod::lemma_div_pos_is_pos(q, w);
    vstd::arithmetic::mul::lemma_mul_is_commutative(w, y);
    assert(y * w + x == q);
    assert(y < h) by {
        if y >= h {
            vstd::arithmetic::mul::lemma_mul_inequality(h, y, w);
            vstd::arithmetic::mul::lemma_mul_is_commutative(w, h);
            assert(q >= w * h);
        }
    }
    vstd::arithmetic::mul::lemma_mul_is_distributive_add_other_way(w, y, 1);
    assert((y + 1) * w == y * w + w);
    vstd::arithmetic::mul::lemma_mul_inequality(y + 1, h, w);
    vstd::arithmetic::mul::lemma_mul_is_commutative(w, h);
    assert((y + 1) * w <= w * h);
    if y + 1 < h {
        vstd::arithmetic::mul::lemma_mul_inequality(y + 2, h, w);
        vstd::arithmetic::mul::lemma_mul_is_distributive_add_other_way(w, y + 1, 1);
        assert((y + 2) * w == (y + 1) * w + w);
        assert(q + w < w * h);
    }
}

/// Diffusing one more pixel keeps the buffer length; every touched index
/// stays inside the frame.
pub proof fn lemma_diffuse_upto_len(buf0: Seq<int>, w: int, h: int, black: int, white: int, k: int)
    requires
        w >= 1,
        buf0.len() == w * h,
        0 <= k <= w * h,
    ensures
        diffuse_upto(buf0, w, h, black, white, k).len() == buf0.len(),
    decreases k,
{
    if k > 0 {
        lemma_diffuse_upto_len(buf0, w, h, black, white, k - 1);
        lemma_raster_coords(k - 1, w, h);
    }
}

/// Indices a step touches never lie before the decided pixel itself.
pub proof fn lemma_diffuse_step_untouched(
    buf: Seq<int>,
    w: int,
    h: int,
    x: int,
    y: int,
    black: int,
    white: int,
    j: int,
)
    requires
        w >= 1,
        buf.len() == w * h,
        0 <= x < w,
        0 <= y < h,
        0 <= j < y * w + x,
    ensures
        diffuse_step(buf, w, h, x, y, black, white)[j] == buf[j],
{
    let q = y * w + x;
    vstd::arithmetic::div_mod::lemma_fundamental_div_mod_converse(q, w, y, x);
    vstd::arithmetic::mul::lemma_mul_is_commutative(w, y);
    assert(q < w * h) by {
        vstd::arithmetic::mul::lemma_mul_inequality(y + 1, h, w);
        vstd::arithmetic::mul::lemma_mul_is_commutative(w, h);
        vstd::arithmetic::mul::lemma_mul_is_distributive_add_other_way(w, y, 1);
    }
    lemma_raster_coords(q, w, h);
}

/// Once a pixel has been decided it is never revisited: after the pass has
/// moved beyond pixel `j`, cell `j` holds one of the two levels.
pub proof fn lemma_diffuse_upto_decided(
    buf0: Seq<int>,
    w: int,
    h: int,
    black: int,
    white: int,
    k: int,
    j: int,
)
    requires
        w >= 1,
        buf0.len() == w * h,
        0 <= j < k <= w * h,
    ensures
        diffuse_upto(buf0, w, h, black, white, k)[j] == black || diffuse_upto(
            buf0,
            w,
            h,
            black,
            white,
            k,
        )[j] == white,
    decreases k,
{
    let prev = diffuse_upto(buf0, w, h, black, white, k - 1);
    let x = (k - 1) % w;
    let y = (k - 1) / w;
    lemma_raster_coords(k - 1, w, h);
    lemma_diffuse_upto_len(buf0, w, h, black, white, k - 1);
    if j == k - 1 {
        assert(diffuse_upto(buf0, w, h, black, white, k) == diffuse_step(
            prev,
            w,
            h,
            x,
            y,
            black,
            white,
        ));
        assert(diffuse_step(prev, w, h, x, y, black, white)[k - 1] == (if abs_val(
            prev[k - 1] - black,
        ) >= abs_val(prev[k - 1] - white) {
            white
        } else {
            black
        }));
    } else {
        lemma_diffuse_upto_decided(buf0, w, h, black, white, k - 1, j);
        lemma_diffuse_step_untouched(prev, w, h, x, y, black, white, j);
    }
}

/// The gamma table holds one sample for each of the 256 input samples.
pub proof fn lemma_gamma_table_bounds()
    ensures
        gamma_table_spec().len() == 256,
        forall|i: int| 0 <= i < 256 ==> 0 <= #[trigger] gamma_table_spec()[i] <= 255,
{
    assert forall|i: int| 0 <= i < 256 implies 0 <= #[trigger] gamma_table_spec()[i] <= 255 by {
        assert(0 <= gamma_table_spec()[i] <= 255);
    }
}

/// Builds the gamma-correction lookup table.
pub fn gamma_table() -> (t: Vec<i16>)
    ensures
        t@ == gamma_table_spec(),
{
    let t: Vec<i16> = vec![
        0, 0, 0, 0, 0, 0, 0, 0, 0, 0, 0, 0, 0, 0, 0, 1, 1, 1, 1, 1, 1, 1, 1, 1, 1, 2, 2, 2, 2, 2,
        2, 2, 3, 3, 3, 3, 3, 4, 4, 4, 4, 5, 5, 5, 5, 6, 6, 6, 6, 7, 7, 7, 8, 8, 8, 9, 9, 9, 10, 10,
        11, 11, 11, 12, 12, 13, 13, 13, 14, 14, 15, 15, 16, 16, 17, 17, 18, 18, 19, 19, 20, 20, 21,
        22, 22, 23, 23, 24, 25, 25, 26, 26, 27, 28, 28, 29, 30, 30, 31, 32, 33, 33, 34, 35, 35, 36,
        37, 38, 39, 39, 40, 41, 42, 43, 43, 44, 45, 46, 47, 48, 49, 49, 50, 51, 52, 53, 54, 55, 56,
        57, 58, 59, 60, 61, 62, 63, 64, 65, 66, 67, 68, 69, 70, 71, 73, 74, 75, 76, 77, 78, 79, 81,
        82, 83, 84, 85, 87, 88, 89, 90, 91, 93, 94, 95, 97, 98, 99, 100, 102, 103, 105, 106, 107,
        109, 110, 111, 113, 114, 116, 117, 119, 120, 121, 123, 124, 126, 127, 129, 130, 132, 133,
        135, 137, 138, 140, 141, 143, 145, 146, 148, 149, 151, 153, 154, 156, 158, 159, 161, 163,
        165, 166, 168, 170, 172, 173, 175, 177, 179, 181, 182, 184, 186, 188, 190, 192, 194, 196,
        197, 199, 201, 203, 205, 207, 209, 211, 213, 215, 217, 219, 221, 223, 225, 227, 229, 231,
        234, 236, 238, 240, 242, 244, 246, 248, 251, 253, 255,
    ];
    proof {
        assert(t@ =~= gamma_table_spec());
    }
    t
}

/// Adds a share of the quantization error to one cell, clamping into the
/// level range, exactly as the specification's clamped addition does.
fn apply_error(buf: &mut Vec<i16>, idx: usize, delta: i16, black: u8, white: u8)
    requires
        idx < old(buf)@.len(),
        black <= white,
        0 <= old(buf)@[idx as int] <= 255,
        -100 <= delta <= 100,
    ensures
        final(buf)@.len() == old(buf)@.len(),
        forall|j: int|
            0 <= j < old(buf)@.len() && j != idx ==> final(buf)@[j] == #[trigger] old(buf)@[j],
        final(buf)@[idx as int] as int == clamp_level(
            old(buf)@[idx as int] + delta,
            black as int,
            white as int,
        ),
{
    let p: i16 = buf[idx] + delta;
    let b: i16 = black as i16;
    let w: i16 = white as i16;
    let v: i16 = if p > w {
        w
    } else if p < b {
        b
    } else {
        p
    };
    buf.set(idx, v);
}

/// Truncating division of the error by eight, matching machine semantics
/// for negative values.
fn div8(e: i16) -> (r: i16)
    requires
        -255 <= e <= 255,
    ensures
        r as int == div8_trunc(e as int),
        -32 <= r <= 32,
{
    if e >= 0 {
        let m: u16 = (e as u16) / 8;
        m as i16
    } else {
        let m: u16 = ((-e) as u16) / 8;
        -(m as i16)
    }
}

/// Dithers a grayscale frame by gamma correction and raster-order error
/// diffusion, and returns the decided frame as flat RGB triples: every
/// sample of the result is one of the two levels, and each pixel's three
/// channels repeat the value the diffusion model assigns it.
pub fn image_dithering(gray: &Vec<u8>, w: usize, h: usize, black: u8, white: u8) -> (rgb: Vec<u8>)
    requires
        gray@.len() == w * h,
        black <= white,
        w * h * 3 <= usize::MAX,
    ensures
        rgb@.len() == 3 * (w * h),
        forall|k: int|
            0 <= k < w * h ==> rgb@[3 * k] as int == diffused_frame(
                gray@,
                w as int,
                h as int,
                black as int,
                white as int,
            )[k] && rgb@[3 * k + 1] == rgb@[3 * k] && rgb@[3 * k + 2] == rgb@[3 * k],
        forall|j: int| 0 <= j < rgb@.len() ==> rgb@[j] == black || #[trigger] rgb@[j] == white,
{
    let ghost w_i = w as int;
    let ghost h_i = h as int;
    let ghost black_i = black as int;
    let ghost white_i = white as int;
    let n: usize = gray.len();

    // Pass 1: gamma-correction lookup.
    let table = gamma_table();
    proof {
        lemma_gamma_table_bounds();
    }
    let mut buf: Vec<i16> = Vec::new();
    let mut k: usize = 0;
    while k < n
        invariant
            k <= n,
            n == gray@.len(),
            table@ == gamma_table_spec(),
            buf@.len() == k,
            forall|j: int| 0 <= j < k ==> buf@[j] as int == gamma_mapped(gray@)[j],
            forall|j: int| 0 <= j < k ==> 0 <= #[trigger] buf@[j] <= 255,
        decreases n - k,
    {
        proof {
            lemma_gamma_table_bounds();
        }
        let v: i16 = table[gray[k] as usize];
        buf.push(v);
        k = k + 1;
    }
    let ghost buf0 = buf@.map_values(|v: i16| v as int);
    proof {
        assert(buf0 =~= gamma_mapped(gray@));
    }

    // Pass 2: raster-order error diffusion; each pixel's decision depends
    // on the error already diffused into it, so this pass is sequential.
    let mut k: usize = 0;
    while k < n
        invariant
            k <= n,
            n == gray@.len(),
            n == w * h,
            black <= white,
            w_i == w as int,
            h_i == h as int,
            black_i == black as int,
            white_i == white as int,
            buf0 == gamma_mapped(gray@),
            buf@.len() == n,
            buf@.map_values(|v: i16| v as int) =~= diffuse_upto(
                buf0,
                w_i,
                h_i,
                black_i,
                white_i,
                k as int,
            ),
            forall|j: int| 0 <= j < n ==> 0 <= #[trigger] buf@[j] <= 255,
        decreases n - k,
    {
        let ghost prev = diffuse_upto(buf0, w_i, h_i, black_i, white_i, k as int);
        proof {
            assert forall|j: int| 0 <= j < n implies 0 <= #[trigger] prev[j] <= 255 by {
                assert(prev[j] == buf@.map_values(|v: i16| v as int)[j]);
            }
            assert(w >= 1) by {
                if w == 0 {
                    vstd::arithmetic::mul::lemma_mul_basics(h_i);
                    assert(w_i * h_i == 0);
                }
            }
        }
        let x: usize = k % w;
        let y: usize = k / w;
        proof {
            lemma_raster_coords(k as int, w_i, h_i);
            assert(y * w + x == k);
        }
        let pv: i16 = buf[k];
        let b: i16 = black as i16;
        let wl: i16 = white as i16;
        let err_b: i16 = pv - b;
        let err_w: i16 = pv - wl;
        let abs_b: i16 = if err_b >= 0 {
            err_b
        } else {
            -err_b
        };
        let abs_w: i16 = if err_w >= 0 {
            err_w
        } else {
            -err_w
        };
        let pixel: i16 = if abs_b >= abs_w {
            wl
        } else {
            b
        };
        let err: i16 = if abs_b >= abs_w {
            err_w
        } else {
            err_b
        };
        let err8: i16 = div8(err);
        let ghost step_pixel = if abs_val(prev[k as int] - black_i) >= abs_val(
            prev[k as int] - white_i,
        ) {
            white_i
        } else {
            black_i
        };
        let ghost step_err = div8_trunc(prev[k as int] - step_pixel);
        proof {
            assert(pixel as int == step_pixel);
            assert(err8 as int == step_err);
        }
        let ghost b1 = if x as int + 1 < w_i {
            add_clamped(prev, k as int + 1, 3 * step_err, black_i, white_i)
        } else {
            prev
        };
        let ghost b2 = if y as int + 1 < h_i {
            add_clamped(b1, k as int + w_i, 3 * step_err, black_i, white_i)
        } else {
            b1
        };
        let ghost b3 = if x as int + 1 < w_i && y as int + 1 < h_i {
            add_clamped(b2, k as int + w_i + 1, 2 * step_err, black_i, white_i)
        } else {
            b2
        };
        proof {
            if y + 1 < h {
                assert((y + 1) * w + x == k + w && k + w < n);
            }
        }
        if x + 1 < w {
            apply_error(&mut buf, k + 1, 3 * err8, black, white);
        }
        proof {
            assert(buf@.map_values(|v: i16| v as int) =~= b1);
        }
        if y + 1 < h {
            apply_error(&mut buf, k + w, 3 * err8, black, white);
        }
        proof {
            assert(buf@.map_values(|v: i16| v as int) =~= b2);
        }
        if x + 1 < w && y + 1 < h {
            apply_error(&mut buf, k + w + 1, 2 * err8, black, white);
        }
        proof {
            assert(buf@.map_values(|v: i16| v as int) =~= b3);
        }
        buf.set(k, pixel);
        proof {
            let stepped = diffuse_step(prev, w_i, h_i, x as int, y as int, black_i, white_i);
            assert(stepped == b3.update(k as int, step_pixel));
            assert(buf@.map_values(|v: i16| v as int) =~= stepped);
            assert(stepped == diffuse_upto(buf0, w_i, h_i, black_i, white_i, k as int + 1));
            assert forall|j: int| 0 <= j < n implies 0 <= #[trigger] buf@[j] <= 255 by {
                assert(buf@[j] as int == buf@.map_values(|v: i16| v as int)[j]);
                assert(buf@[j] as int == stepped[j]);
            }
        }
        k = k + 1;
    }

    // Output: each decided sample three times, as flat RGB.
    let ghost model = diffused_frame(gray@, w_i, h_i, black_i, white_i);
    proof {
        assert(buf@.map_values(|v: i16| v as int) =~= model);
        assert forall|j: int| 0 <= j < n implies buf@[j] == black || #[trigger] buf@[j]
            == white by {
            assert(w >= 1) by {
                if w == 0 {
                    vstd::arithmetic::mul::lemma_mul_basics(h_i);
                    assert(w_i * h_i == 0);
                }
            }
            lemma_diffuse_upto_decided(buf0, w_i, h_i, black_i, white_i, n as int, j);
            assert(buf@[j] as int == model[j]);
        }
    }
    let mut rgb: Vec<u8> = Vec::new();
    let mut k: usize = 0;
    while k < n
        invariant
            k <= n,
            n == w * h,
            w * h * 3 <= usize::MAX,
            black <= white,
            model == diffused_frame(gray@, w as int, h as int, black as int, white as int),
            n == gray@.len(),
            buf@.len() == n,
            buf@.map_values(|v: i16| v as int) == model,
            forall|j: int| 0 <= j < n ==> 0 <= #[trigger] buf@[j] <= 255,
            forall|j: int| 0 <= j < n ==> buf@[j] == black || #[trigger] buf@[j] == white,
            rgb@.len() == 3 * k,
            forall|j: int|
                0 <= j < k ==> rgb@[3 * j] as int == model[j] && rgb@[3 * j + 1] == rgb@[3 * j]
                    && rgb@[3 * j + 2] == rgb@[3 * j],
            forall|j: int| 0 <= j < rgb@.len() ==> rgb@[j] == black || #[trigger] rgb@[j] == white,
        decreases n - k,
    {
        let v: u8 = buf[k] as u8;
        rgb.push(v);
        rgb.push(v);
        rgb.push(v);
        proof {
            assert(buf@.map_values(|vv: i16| vv as int)[k as int] == buf@[k as int] as int);
            assert(v as int == model[k as int]);
            assert(rgb@.len() == 3 * k + 3);
            assert(rgb@[3 * k as int] == v && rgb@[3 * k as int + 1] == v && rgb@[3 * k as int + 2]
                == v);
        }
        k = k + 1;
    }
    rgb
}

} // verus!
