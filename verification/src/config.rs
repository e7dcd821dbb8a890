use vstd::prelude::*;

verus! {

/// Default length of one analysis window, in samples.
pub const DEFAULT_BUFFER_SIZE: usize = 2048;

/// Default number of frequency bands per frame.
pub const DEFAULT_NUM_BANDS: usize = 32;

/// Settings for one run of the pipeline: where the input comes from and
/// where the rendered output goes, which part of the audio to analyze,
/// and how finely to resolve it in time and frequency.
pub struct Config {
    pub input_path: String,
    pub output_path: String,
    pub start_ms: u64,
    pub end_ms: u64,
    pub bands: usize,
    pub buffer_size: usize,
}

impl Config {
    /// A configuration is usable when the requested time window is
    /// non-empty, at least one band is asked for, an analysis window
    /// holds at least two samples (so that the hop length
    /// `buffer_size / 2` is positive), and there are no more bands than
    /// transform bins (so that every band holds at least one bin and a
    /// band's mean energy is a mean over something).
    pub open spec fn valid(&self) -> bool {
        &&& self.start_ms < self.end_ms
        &&& self.bands >= 1
        &&& self.bands <= self.buffer_size / 2
        &&& self.buffer_size >= 2
    }

    pub fn validate(&self) -> (ok: bool)
        ensures
            ok == self.valid(),
    {
        self.start_ms < self.end_ms && self.bands >= 1 && self.bands <= self.buffer_size / 2
            && self.buffer_size >= 2
    }
}

} // verus!
