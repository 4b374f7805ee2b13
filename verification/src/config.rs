//! Immutable per-process dithering configuration: display geometry and the
//! black/white luminance levels, expressed in source sample units (0..=255).

use vstd::prelude::*;

verus! {

/// Reasons a configuration is rejected before the pipeline starts.
#[derive(Clone, Copy, Debug, PartialEq, Eq, Structural)]
pub enum ConfigError {
    /// The black level lies above the white level.
    LevelsReversed,
    /// The display width is not a whole number of packed bytes.
    WidthNotByteAligned,
    /// The pixel count does not fit the 32-bit offset arithmetic of the
    /// block protocol.
    FrameTooLarge,
}

/// Dithering configuration, set once at startup and immutable afterwards.
///
/// Luminance levels are stored in source sample units: the unit interval of
/// the level parameters is scaled by 255, so `0` stands for 0.0 and `255`
/// for 1.0.
#[derive(Clone, Copy, Debug, PartialEq, Eq, Structural)]
pub struct DitherConfig {
    /// Display width in pixels; a multiple of eight, so packed bytes never
    /// straddle rows.
    pub width: u32,
    /// Display height in pixels.
    pub height: u32,
    /// Luminance mapped to black, in sample units.
    pub black_level: u8,
    /// Luminance mapped to white, in sample units; never below the black
    /// level.
    pub white_level: u8,
}

impl DitherConfig {
    /// Invariant established by the constructor and preserved everywhere.
    pub open spec fn wf(self) -> bool {
        &&& self.black_level <= self.white_level
        &&& self.width % 8 == 0
        &&& self.width * self.height <= u32::MAX
    }

    /// Number of pixels in one frame.
    pub open spec fn pixel_count(self) -> int {
        self.width * self.height
    }

    /// Number of bytes in one packed bitmap.
    pub open spec fn bitmap_len(self) -> int {
        self.width * self.height / 8
    }

    /// Validates and builds a configuration; rejected inputs map to exactly
    /// one error each.
    pub fn new(width: u32, height: u32, black_level: u8, white_level: u8) -> (r: Result<
        DitherConfig,
        ConfigError,
    >)
        ensures
            black_level > white_level <==> r == Result::<DitherConfig, ConfigError>::Err(
                ConfigError::LevelsReversed,
            ),
            black_level <= white_level && width % 8 != 0 <==> r == Result::<
                DitherConfig,
                ConfigError,
            >::Err(ConfigError::WidthNotByteAligned),
            black_level <= white_level && width % 8 == 0 && width * height > u32::MAX <==> r
                == Result::<DitherConfig, ConfigError>::Err(ConfigError::FrameTooLarge),
            r is Ok <==> black_level <= white_level && width % 8 == 0 && width * height
                <= u32::MAX,
            r is Ok ==> r->Ok_0 == (DitherConfig { width, height, black_level, white_level })
                && r->Ok_0.wf(),
    {
        if black_level > white_level {
            Err(ConfigError::LevelsReversed)
        } else if width % 8 != 0 {
            Err(ConfigError::WidthNotByteAligned)
        } else if height != 0 && width > u32::MAX / height {
            proof {
                let h = height as int;
                let q = u32::MAX as int / h;
                vstd::arithmetic::div_mod::lemma_fundamental_div_mod(u32::MAX as int, h);
                vstd::arithmetic::div_mod::lemma_mod_bound(u32::MAX as int, h);
                vstd::arithmetic::mul::lemma_mul_inequality(q + 1, width as int, h);
                vstd::arithmetic::mul::lemma_mul_is_distributive_add_other_way(h, q, 1);
                assert((q + 1) * h > u32::MAX);
            }
            Err(ConfigError::FrameTooLarge)
        } else {
            proof {
                if height != 0 {
                    let h = height as int;
                    let q = u32::MAX as int / h;
                    vstd::arithmetic::div_mod::lemma_fundamental_div_mod(u32::MAX as int, h);
                    vstd::arithmetic::div_mod::lemma_mod_bound(u32::MAX as int, h);
                    vstd::arithmetic::mul::lemma_mul_inequality(width as int, q, h);
                    assert(q * h <= u32::MAX);
                }
            }
            Ok(DitherConfig { width, height, black_level, white_level })
        }
    }

    /// The per-algorithm threshold parameter handed to the compute stage:
    /// half the distance between the white and black levels.
    pub fn derived_threshold(&self) -> (t: u8)
        requires
            self.wf(),
        ensures
            t == (self.white_level - self.black_level) / 2,
    {
        (self.white_level - self.black_level) / 2
    }
}

} // verus!
