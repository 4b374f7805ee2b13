//! Constant ordered-dithering threshold matrices (Bayer 4x4 and 8x8), tiled
//! across the image by the ordered algorithm.

use vstd::prelude::*;

verus! {

/// A fixed N x N table of integer thresholds in `[0, N*N)`, N in {4, 8}.
pub struct DitheringMatrix {
    /// Side length of the square table.
    pub n: usize,
    /// The thresholds, row-major: entry `(row, col)` is `entries[row * n + col]`.
    pub entries: Vec<u32>,
}

/// The classic 4x4 Bayer index matrix.
pub open spec fn bayer4_entries() -> Seq<u32> {
    seq![0u32, 8u32, 2u32, 10u32, 12u32, 4u32, 14u32, 6u32, 3u32, 11u32, 1u32, 9u32, 15u32, 7u32, 13u32, 5u32]
}

/// The classic 8x8 Bayer index matrix.
pub open spec fn bayer8_entries() -> Seq<u32> {
    seq![
        0u32,
        32u32,
        8u32,
        40u32,
        2u32,
        34u32,
        10u32,
        42u32,
        48u32,
        16u32,
        56u32,
        24u32,
        50u32,
        18u32,
        58u32,
        26u32,
        12u32,
        44u32,
        4u32,
        36u32,
        14u32,
        46u32,
        6u32,
        38u32,
        60u32,
        28u32,
        52u32,
        20u32,
        62u32,
        30u32,
        54u32,
        22u32,
        3u32,
        35u32,
        11u32,
        43u32,
        1u32,
        33u32,
        9u32,
        41u32,
        51u32,
        19u32,
        59u32,
        27u32,
        49u32,
        17u32,
        57u32,
        25u32,
        15u32,
        47u32,
        7u32,
        39u32,
        13u32,
        45u32,
        5u32,
        37u32,
        63u32,
        31u32,
        55u32,
        23u32,
        61u32,
        29u32,
        53u32,
        21u32,
    ]
}

impl DitheringMatrix {
    /// The side length is 4 or 8, the table is square, and every threshold
    /// lies in `[0, n*n)`.
    pub open spec fn wf(self) -> bool {
        &&& (self.n == 4 || self.n == 8)
        &&& self.entries@.len() == self.n * self.n
        &&& forall|i: int| 0 <= i < self.entries@.len() ==> self.entries@[i] < self.n * self.n
    }

    /// Builds the 4x4 Bayer matrix.
    pub fn bayer4() -> (m: DitheringMatrix)
        ensures
            m.wf(),
            m.n == 4,
            m.entries@ == bayer4_entries(),
    {
        let entries: Vec<u32> = vec![0u32, 8, 2, 10, 12, 4, 14, 6, 3, 11, 1, 9, 15, 7, 13, 5];
        proof {
            assert(entries@ =~= bayer4_entries());
            assert forall|i: int| 0 <= i < entries@.len() implies entries@[i] < 16 by {
                assert(entries@[i] == bayer4_entries()[i]);
            }
        }
        DitheringMatrix { n: 4, entries }
    }

    /// Builds the 8x8 Bayer matrix.
    pub fn bayer8() -> (m: DitheringMatrix)
        ensures
            m.wf(),
            m.n == 8,
            m.entries@ == bayer8_entries(),
    {
        let entries: Vec<u32> = vec![
            0u32,
            32,
            8,
            40,
            2,
            34,
            10,
            42,
            48,
            16,
            56,
            24,
            50,
            18,
            58,
            26,
            12,
            44,
            4,
            36,
            14,
            46,
            6,
            38,
            60,
            28,
            52,
            20,
            62,
            30,
            54,
            22,
            3,
            35,
            11,
            43,
            1,
            33,
            9,
            41,
            51,
            19,
            59,
            27,
            49,
            17,
            57,
            25,
            15,
            47,
            7,
            39,
            13,
            45,
            5,
            37,
            63,
            31,
            55,
            23,
            61,
            29,
            53,
            21,
        ];
        proof {
            assert(entries@ =~= bayer8_entries());
            assert forall|i: int| 0 <= i < entries@.len() implies entries@[i] < 64 by {
                assert(entries@[i] == bayer8_entries()[i]);
            }
        }
        DitheringMatrix { n: 8, entries }
    }
}

} // verus!
