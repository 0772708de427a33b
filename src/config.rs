use vstd::prelude::*;

verus! {

/// Which nonessential PNG chunks are stripped.
#[derive(Clone, Copy, Debug, PartialEq, Eq, Structural)]
pub enum PngStripOptions {
    /// Don't strip headers.
    Off,
    /// Strip headers that don't affect rendering.
    Safe,
    /// Strip all non-critical headers.
    All,
}

/// The settings of a run.
pub struct Args {
    /// Input paths or glob patterns.
    pub paths: Vec<String>,
    /// Maximum number of worker threads; the machine's parallelism when absent.
    pub jobs: Option<usize>,
    /// Format of output file names (`%e` extension, `%s` stem, `%%` a `%`).
    pub output_format: String,
    /// Overwrite the input files, as the output format `%s.%e` would.
    pub overwrite: bool,
    /// Quality of JPEG files, from 1 to 100.
    pub jpg_quality: u8,
    /// Which PNG chunks to strip.
    pub png_strip: PngStripOptions,
}

impl Args {
    /// The settings for `paths` with every option at its default.
    pub fn with_defaults(paths: Vec<String>) -> (r: Args)
        ensures
            r.paths@ == paths@,
            r.jobs is None,
            r.output_format@ == "compressed_%s.%e"@,
            !r.overwrite,
            r.jpg_quality == 75,
            r.png_strip == PngStripOptions::Safe,
    {
        Args {
            paths,
            jobs: None,
            output_format: String::from_str("compressed_%s.%e"),
            overwrite: false,
            jpg_quality: 75,
            png_strip: PngStripOptions::Safe,
        }
    }
}

} // verus!
