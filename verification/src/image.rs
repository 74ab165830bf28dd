use vstd::prelude::*;
use crate::ratio::Ratio;
use crate::RunError;

verus! {

/// Raster dimensions in pixels.
#[derive(Clone, Copy, PartialEq, Eq, Structural, Debug)]
pub struct Dims {
    pub width: u32,
    pub height: u32,
}

impl Dims {
    pub open spec fn wf(self) -> bool {
        self.width > 0 && self.height > 0
    }

    /// The aspect ratio of a raster with these dimensions.
    pub open spec fn aspect(self) -> Ratio {
        Ratio { num: self.width, den: self.height }
    }
}

/// One catalog entry: where the file lives, its identity within a run, and
/// its aspect ratio. Immutable once created.
#[derive(Debug)]
pub struct Image {
    pub filepath: String,
    pub filename: String,
    pub ratio: Ratio,
}

impl Image {
    pub open spec fn wf(self) -> bool {
        self.ratio.wf()
    }

    /// Builds the record from a path, an identity and the probed pixel
    /// dimensions; a zero width or height means the probe found nothing
    /// usable, which is the probe failure.
    pub fn new(filepath: String, filename: String, width: u32, height: u32) -> (r: Result<
        Image,
        RunError,
    >)
        ensures
            r is Ok <==> width > 0 && height > 0,
            r matches Ok(img) ==> img.filepath == filepath && img.filename == filename && img.ratio
                == (Ratio { num: width, den: height }) && img.wf(),
            r matches Err(e) ==> e == RunError::ProbeError,
    {
        if width == 0 || height == 0 {
            Err(RunError::ProbeError)
        } else {
            Ok(Image { filepath, filename, ratio: Ratio { num: width, den: height } })
        }
    }
}

impl Clone for Image {
    fn clone(&self) -> (r: Self)
        ensures
            r == self,
    {
        Image { filepath: self.filepath.clone(), filename: self.filename.clone(), ratio: self.ratio }
    }
}

/// The upscale stage's factor: 4 when even a doubled height misses the
/// band's floor, 2 when the height alone misses it, 1 otherwise.
pub open spec fn spec_upscale_factor(height: int, min_height: int) -> int {
    if 2 * height < min_height {
        4
    } else if height < min_height {
        2
    } else {
        1
    }
}

/// Width after the clamp stage: the width scaled by `max_height / height`,
/// rounded to the nearest integer (half rounds up).
pub open spec fn spec_clamp_width(width: int, height: int, max_height: int) -> int {
    (width * max_height * 2 + height) / (height * 2)
}

/// Whether the clamp stage runs: the height after the upscale stage still
/// lies outside the band.
pub open spec fn spec_needs_clamp(height: int, min_height: int, max_height: int) -> bool {
    let h1 = height * spec_upscale_factor(height, min_height);
    h1 < min_height || h1 > max_height
}

/// Final width of the two-stage normalization.
pub open spec fn spec_fit_width(width: int, height: int, min_height: int, max_height: int) -> int {
    let f = spec_upscale_factor(height, min_height);
    if spec_needs_clamp(height, min_height, max_height) {
        spec_clamp_width(width * f, height * f, max_height)
    } else {
        width * f
    }
}

/// Final height of the two-stage normalization: the clamp stage always
/// targets `max_height`, even when the violation is being too short.
pub open spec fn spec_fit_height(height: int, min_height: int, max_height: int) -> int {
    if spec_needs_clamp(height, min_height, max_height) {
        max_height
    } else {
        height * spec_upscale_factor(height, min_height)
    }
}

/// Interpolation for the clamp stage: area-averaging when shrinking,
/// linear when enlarging.
#[derive(Clone, Copy, PartialEq, Eq, Structural, Debug)]
pub enum ScaleMode {
    Area,
    Linear,
}

/// What the clamp stage must do to the raster: rescale it to
/// `(new_width, max_height)` with the given interpolation.
#[derive(Clone, Copy, PartialEq, Eq, Structural, Debug)]
pub struct ClampStep {
    pub new_width: u32,
    pub mode: ScaleMode,
}

/// The full normalization decision for one raster: first resample by
/// `factor` (1 means no resample), then apply `clamp` if it is set.
#[derive(Clone, Copy, PartialEq, Eq, Structural, Debug)]
pub struct FitPlan {
    pub factor: u32,
    pub clamp: Option<ClampStep>,
}

impl Image {
    /// Brings a raster's height into the band `[min_height, max_height]`:
    /// one upscale by 4 or 2 when the height misses the band's floor, then
    /// a rescale to exactly `max_height` when the height is still out of
    /// band. Updates the model dimensions and returns the plan of raster
    /// operations that realizes them.
    pub fn fit(d: &mut Dims, min_height: u32, max_height: u32) -> (plan: FitPlan)
        requires
            old(d).height > 0,
            (old(d).width as int) * spec_upscale_factor(old(d).height as int, min_height as int)
                <= u32::MAX,
            (old(d).height as int) * spec_upscale_factor(old(d).height as int, min_height as int)
                <= u32::MAX,
            spec_fit_width(
                old(d).width as int,
                old(d).height as int,
                min_height as int,
                max_height as int,
            ) <= u32::MAX,
        ensures
            final(d).width == spec_fit_width(
                old(d).width as int,
                old(d).height as int,
                min_height as int,
                max_height as int,
            ),
            final(d).height == spec_fit_height(
                old(d).height as int,
                min_height as int,
                max_height as int,
            ),
            plan.factor == spec_upscale_factor(old(d).height as int, min_height as int),
            plan.clamp is Some <==> spec_needs_clamp(
                old(d).height as int,
                min_height as int,
                max_height as int,
            ),
            plan.clamp matches Some(c) ==> c.new_width == final(d).width && (c.mode == ScaleMode::Area
                <==> (old(d).height as int) * (plan.factor as int) > max_height as int),
            max_height > 0 ==> final(d).height > 0,
    {
        let factor: u32 = Self::fit_upscale(d, min_height);
        if d.height < min_height || d.height > max_height {
            let w1 = d.width as u128;
            let h1 = d.height as u128;
            let m = max_height as u128;
            proof {
                assert(0 <= (d.width as int) * (max_height as int) < 0x1_0000_0000_0000_0000)
                    by (nonlinear_arith)
                    requires
                        0 <= d.width < 0x1_0000_0000,
                        0 <= max_height < 0x1_0000_0000,
                ;
            }
            let num: u128 = w1 * m * 2 + h1;
            let den: u128 = h1 * 2;
            let nw128: u128 = num / den;
            proof {
                assert(nw128 == spec_clamp_width(w1 as int, h1 as int, max_height as int));
                assert(nw128 <= u32::MAX);
            }
            let new_width: u32 = nw128 as u32;
            let mode = if d.height > max_height {
                ScaleMode::Area
            } else {
                ScaleMode::Linear
            };
            d.width = new_width;
            d.height = max_height;
            FitPlan { factor, clamp: Some(ClampStep { new_width, mode }) }
        } else {
            FitPlan { factor, clamp: None }
        }
    }

    /// Whether `fit` accepts these dimensions: the height is positive, and
    /// the upscaled dimensions as well as the normalized width stay within
    /// 32 bits. A caller outside the verifier can test this before `fit`.
    pub fn fit_accepts(d: Dims, min_height: u32, max_height: u32) -> (r: bool)
        ensures
            r <==> (d.height > 0 && (d.width as int) * spec_upscale_factor(
                d.height as int,
                min_height as int,
            ) <= u32::MAX && (d.height as int) * spec_upscale_factor(
                d.height as int,
                min_height as int,
            ) <= u32::MAX && spec_fit_width(
                d.width as int,
                d.height as int,
                min_height as int,
                max_height as int,
            ) <= u32::MAX),
    {
        if d.height == 0 {
            return false;
        }
        let w1: u64;
        let h1: u64;
        if (d.height as u64) * 2 < (min_height as u64) {
            w1 = (d.width as u64) * 4;
            h1 = (d.height as u64) * 4;
        } else if d.height < min_height {
            w1 = (d.width as u64) * 2;
            h1 = (d.height as u64) * 2;
        } else {
            w1 = d.width as u64;
            h1 = d.height as u64;
        }
        proof {
            let f = spec_upscale_factor(d.height as int, min_height as int);
            assert(w1 == (d.width as int) * f && h1 == (d.height as int) * f);
        }
        if w1 > (u32::MAX as u64) || h1 > (u32::MAX as u64) {
            return false;
        }
        if h1 < (min_height as u64) || h1 > (max_height as u64) {
            proof {
                assert(0 <= (w1 as int) * (max_height as int) < 0x1_0000_0000_0000_0000)
                    by (nonlinear_arith)
                    requires
                        0 <= w1 < 0x1_0000_0000,
                        0 <= max_height < 0x1_0000_0000,
                ;
            }
            let num: u128 = (w1 as u128) * (max_height as u128) * 2 + (h1 as u128);
            let den: u128 = (h1 as u128) * 2;
            let cw: u128 = num / den;
            proof {
                assert(cw == spec_clamp_width(w1 as int, h1 as int, max_height as int));
            }
            cw <= (u32::MAX as u128)
        } else {
            true
        }
    }

    /// The upscale stage alone: resample by 4 when a doubled height would
    /// still miss the band's floor, by 2 when the height misses it, else
    /// leave the raster alone. Returns the factor.
    fn fit_upscale(d: &mut Dims, min_height: u32) -> (factor: u32)
        requires
            old(d).height > 0,
            (old(d).width as int) * spec_upscale_factor(old(d).height as int, min_height as int)
                <= u32::MAX,
            (old(d).height as int) * spec_upscale_factor(old(d).height as int, min_height as int)
                <= u32::MAX,
        ensures
            factor == spec_upscale_factor(old(d).height as int, min_height as int),
            final(d).width == (old(d).width as int) * factor,
            final(d).height == (old(d).height as int) * factor,
            final(d).height > 0,
    {
        if (d.height as u64) * 2 < min_height as u64 {
            d.width = d.width * 4;
            d.height = d.height * 4;
            4
        } else if d.height < min_height {
            d.width = d.width * 2;
            d.height = d.height * 2;
            2
        } else {
            1
        }
    }
}

} // verus!
