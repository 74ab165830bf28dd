use vstd::prelude::*;

pub mod assemble;
pub mod database;
pub mod image;
pub mod probe;
pub mod ratio;
pub mod wallpaper;

verus! {

/// The failure kinds of a run. Catalog construction recovers from a probe
/// failure by skipping the image; every other kind aborts the run.
#[derive(Clone, Copy, PartialEq, Eq, Structural, Debug)]
pub enum RunError {
    PathError,
    ProbeError,
    DecodeError,
    ResampleError,
    WriteError,
    CacheParseError,
}

/// The run configuration: paths as the caller resolved them, the output
/// height band, and the desired output aspect ratio.
#[derive(Debug)]
pub struct Config {
    pub input_path: String,
    pub output_path: String,
    pub upscaler_path: String,
    pub minimum_height: u32,
    pub maximum_height: u32,
    pub desired_ratio_w: u32,
    pub desired_ratio_h: u32,
}

impl Config {
    /// Builds the configuration from already expanded paths and the raw
    /// numeric settings.
    pub fn new(
        input_path: String,
        output_path: String,
        upscaler_path: String,
        minimum_height: u32,
        maximum_height: u32,
        desired_ratio_w: u32,
        desired_ratio_h: u32,
    ) -> (c: Config)
        ensures
            c.input_path == input_path,
            c.output_path == output_path,
            c.upscaler_path == upscaler_path,
            c.minimum_height == minimum_height,
            c.maximum_height == maximum_height,
            c.desired_ratio_w == desired_ratio_w,
            c.desired_ratio_h == desired_ratio_h,
    {
        Config {
            input_path,
            output_path,
            upscaler_path,
            minimum_height,
            maximum_height,
            desired_ratio_w,
            desired_ratio_h,
        }
    }

    /// The target aspect ratio, `desired_ratio_w / desired_ratio_h`.
    pub fn desired_aspect(&self) -> (r: crate::ratio::Ratio)
        requires
            self.desired_ratio_w > 0,
            self.desired_ratio_h > 0,
        ensures
            r == (crate::ratio::Ratio { num: self.desired_ratio_w, den: self.desired_ratio_h }),
            r.wf(),
    {
        crate::ratio::Ratio { num: self.desired_ratio_w, den: self.desired_ratio_h }
    }
}

} // verus!
