use vstd::prelude::*;

verus! {

/// Metadata of a decoded stream as a whole: the rate samples were taken
/// at, how many channels the source had before downmixing, and how many
/// mono samples the decode produced in total.
#[derive(Clone, Copy, PartialEq, Eq, Structural, Debug)]
pub struct AudioInfo {
    pub sample_rate: u32,
    pub channels: usize,
    pub total_samples: usize,
}

impl AudioInfo {
    /// Stream metadata is well formed when the rate and the channel
    /// count are positive.
    pub open spec fn well_formed(&self) -> bool {
        &&& self.sample_rate >= 1
        &&& self.channels >= 1
    }
}

/// One spectral frame: the absolute position of its window within the
/// original audio, in microseconds, and one energy value per band.
///
/// An energy value is the bit pattern of an IEEE 754 single-precision
/// number, in decibels. The library never interprets the bits; it only
/// guarantees how many there are and where they came from. Callers that
/// want the numeric value reinterpret the bits themselves.
pub struct FrameData {
    pub time_us: u64,
    pub bands: Vec<u32>,
}

/// Everything that can go wrong in the pipeline.
#[derive(Clone, Copy, PartialEq, Eq, Structural, Debug)]
pub enum AudioError {
    /// The source file could not be opened, or no supported container or
    /// codec was recognized in it.
    UnreadableSource,
    /// The container holds no track with a decodable codec.
    NoAudioTrack,
    /// The selected track reports no usable sample rate or channel count.
    MissingStreamMetadata,
    /// The decoder failed in a way that is not a single corrupt packet.
    DecodeFailure,
    /// The requested start time lies at or past the end of the audio.
    /// Carries that start time, so the caller can report which request
    /// was beyond the audio.
    RangeBeyondAudio { start_ms: u64 },
}

} // verus!
