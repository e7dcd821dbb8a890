use vstd::prelude::*;

use crate::structs::{AudioError, AudioInfo};

verus! {

/// The sample index that a point in time falls on: the number of whole
/// samples taken before `ms` milliseconds at `sample_rate` samples per
/// second have passed.
pub open spec fn sample_index_of_ms(ms: u64, sample_rate: u32) -> int {
    (ms * sample_rate) / 1000
}

/// The end of an extracted range: the index of its end time, clamped to
/// the number of samples that exist.
pub open spec fn clamped_end_index(samples_len: int, end_ms: u64, sample_rate: u32) -> int {
    if sample_index_of_ms(end_ms, sample_rate) <= samples_len {
        sample_index_of_ms(end_ms, sample_rate)
    } else {
        samples_len
    }
}

/// What extracting `[start_ms, end_ms)` from a sample sequence yields: the
/// half-open slice between the two time indices, with the end clamped to
/// the available audio, or `RangeBeyondAudio` when the start index lies at
/// or past the end.
pub open spec fn extract_spec(
    samples: Seq<u32>,
    start_ms: u64,
    end_ms: u64,
    sample_rate: u32,
) -> Result<Seq<u32>, AudioError> {
    let s = sample_index_of_ms(start_ms, sample_rate);
    if s >= samples.len() {
        Err(AudioError::RangeBeyondAudio { start_ms })
    } else {
        Ok(samples.subrange(s, clamped_end_index(samples.len() as int, end_ms, sample_rate)))
    }
}

/// Slices a decoded mono sample sequence to the requested millisecond
/// window. Samples are carried as opaque bit patterns; only their
/// positions matter here.
pub fn extract_time_range(
    samples: &Vec<u32>,
    start_ms: u64,
    end_ms: u64,
    sample_rate: u32,
) -> (r: Result<Vec<u32>, AudioError>)
    requires
        start_ms <= end_ms,
    ensures
        r is Ok <==> sample_index_of_ms(start_ms, sample_rate) < samples@.len(),
        r matches Ok(out) ==> out@ == extract_spec(samples@, start_ms, end_ms, sample_rate)->Ok_0,
        r matches Err(e) ==> e == (AudioError::RangeBeyondAudio { start_ms }),
{
    let len: usize = samples.len();
    let rate128: u128 = sample_rate as u128;
    proof {
        vstd::arithmetic::mul::lemma_mul_upper_bound(
            start_ms as int,
            u64::MAX as int,
            sample_rate as int,
            u32::MAX as int,
        );
        vstd::arithmetic::mul::lemma_mul_upper_bound(
            end_ms as int,
            u64::MAX as int,
            sample_rate as int,
            u32::MAX as int,
        );
    }
    let start128: u128 = (start_ms as u128) * rate128 / 1000;
    assert(start128 == sample_index_of_ms(start_ms, sample_rate));
    if start128 >= len as u128 {
        return Err(AudioError::RangeBeyondAudio { start_ms });
    }
    let start: usize = start128 as usize;
    let end128: u128 = (end_ms as u128) * rate128 / 1000;
    assert(end128 == sample_index_of_ms(end_ms, sample_rate));
    let end: usize = if end128 <= len as u128 {
        end128 as usize
    } else {
        len
    };
    assert(end == clamped_end_index(samples@.len() as int, end_ms, sample_rate));
    assert(start <= end) by {
        assert(start_ms * sample_rate <= end_ms * sample_rate) by (nonlinear_arith)
            requires
                start_ms <= end_ms,
                sample_rate >= 0,
        ;
        vstd::arithmetic::div_mod::lemma_div_is_ordered(
            (start_ms * sample_rate) as int,
            (end_ms * sample_rate) as int,
            1000,
        );
    };
    let mut out: Vec<u32> = Vec::new();
    let mut i: usize = start;
    while i < end
        invariant
            start <= i <= end <= samples@.len(),
            out@ == samples@.subrange(start as int, i as int),
        decreases end - i,
    {
        out.push(samples[i]);
        assert(out@ == samples@.subrange(start as int, i + 1 as int));
        i = i + 1;
    }
    Ok(out)
}

/// Law: extracting from time zero to a time at or past the end of the
/// audio yields the whole sample sequence.
pub proof fn lemma_extract_full_range(samples: Seq<u32>, end_ms: u64, sample_rate: u32)
    requires
        samples.len() >= 1,
        1000 * samples.len() <= end_ms * sample_rate,
    ensures
        extract_spec(samples, 0, end_ms, sample_rate) == Ok::<Seq<u32>, AudioError>(samples),
{
    assert(sample_index_of_ms(0, sample_rate) == 0) by {
        vstd::arithmetic::div_mod::lemma_div_multiples_vanish(0, 1000);
    };
    assert(sample_index_of_ms(end_ms, sample_rate) >= samples.len()) by {
        vstd::arithmetic::div_mod::lemma_div_is_ordered(
            1000 * samples.len() as int,
            (end_ms * sample_rate) as int,
            1000,
        );
        vstd::arithmetic::div_mod::lemma_div_multiples_vanish(samples.len() as int, 1000);
    };
    assert(samples.subrange(0, samples.len() as int) =~= samples);
}

/// Law: a start time at or past the audio's duration is rejected with
/// `RangeBeyondAudio`.
pub proof fn lemma_extract_start_beyond(
    samples: Seq<u32>,
    start_ms: u64,
    end_ms: u64,
    sample_rate: u32,
)
    requires
        1000 * samples.len() <= start_ms * sample_rate,
    ensures
        extract_spec(samples, start_ms, end_ms, sample_rate) == Err::<Seq<u32>, AudioError>(
            AudioError::RangeBeyondAudio { start_ms },
        ),
{
    assert(sample_index_of_ms(start_ms, sample_rate) >= samples.len()) by {
        vstd::arithmetic::div_mod::lemma_div_is_ordered(
            1000 * samples.len() as int,
            (start_ms * sample_rate) as int,
            1000,
        );
        vstd::arithmetic::div_mod::lemma_div_multiples_vanish(samples.len() as int, 1000);
    };
}

/// Law: an end time past the audio's duration does not fail; the result
/// is truncated at the last decoded sample.
pub proof fn lemma_extract_end_clamped(
    samples: Seq<u32>,
    start_ms: u64,
    end_ms: u64,
    sample_rate: u32,
)
    requires
        start_ms * sample_rate < 1000 * samples.len() as int,
        1000 * samples.len() <= end_ms * sample_rate,
    ensures
        extract_spec(samples, start_ms, end_ms, sample_rate) matches Ok(out) && out
            == samples.subrange(sample_index_of_ms(start_ms, sample_rate), samples.len() as int)
            && out.len() >= 1 && out.last() == samples.last(),
{
    assert(sample_index_of_ms(start_ms, sample_rate) < samples.len()) by {
        vstd::arithmetic::div_mod::lemma_div_is_ordered(
            (start_ms * sample_rate) as int,
            1000 * samples.len() - 1,
            1000,
        );
        vstd::arithmetic::div_mod::lemma_fundamental_div_mod_converse(
            1000 * samples.len() - 1,
            1000,
            samples.len() as int - 1,
            999,
        );
    };
    assert(sample_index_of_ms(end_ms, sample_rate) >= samples.len()) by {
        vstd::arithmetic::div_mod::lemma_div_is_ordered(
            1000 * samples.len() as int,
            (end_ms * sample_rate) as int,
            1000,
        );
        vstd::arithmetic::div_mod::lemma_div_multiples_vanish(samples.len() as int, 1000);
    };
}

/// The downmix policy: only a stream with exactly two channels is
/// downmixed; every other channel count — one included — passes its
/// samples through unchanged in decoded interleaved order.
pub fn should_downmix(channels: usize) -> (b: bool)
    ensures
        b == (channels == 2),
{
    channels == 2
}

/// The left/right pairing behind the stereo downmix: sample `2k` of an
/// interleaved stereo block is the left half of output sample `k` and
/// sample `2k + 1` its right half. Averaging each pair is floating-point
/// arithmetic and happens outside; this fixes which samples every
/// downmixed value may come from.
pub fn stereo_pairs(samples: &Vec<u32>) -> (r: Vec<(u32, u32)>)
    requires
        samples@.len() % 2 == 0,
    ensures
        r@.len() == samples@.len() / 2,
        forall|k: int|
            0 <= k < r@.len() ==> (#[trigger] r@[k]).0 == samples@[2 * k] && r@[k].1 == samples@[2
                * k + 1],
{
    let mut r: Vec<(u32, u32)> = Vec::new();
    let mut i: usize = 0;
    while i + 1 < samples.len()
        invariant
            i % 2 == 0,
            i <= samples@.len(),
            samples@.len() % 2 == 0,
            r@.len() == i / 2,
            forall|k: int|
                0 <= k < r@.len() ==> (#[trigger] r@[k]).0 == samples@[2 * k] && r@[k].1
                    == samples@[2 * k + 1],
        decreases samples@.len() - i,
    {
        r.push((samples[i], samples[i + 1]));
        i = i + 2;
    }
    r
}

/// Picks the first track whose codec is decodable. A track is handed in
/// as the answer to one question: does it carry the null placeholder
/// codec? The result is the index of the first track that does not, or
/// `NoAudioTrack` when every track does.
pub fn first_decodable_track(codec_is_null: &Vec<bool>) -> (r: Result<usize, AudioError>)
    ensures
        r matches Ok(i) ==> i < codec_is_null@.len() && !codec_is_null@[i as int] && (forall|j: int|
            0 <= j < i ==> codec_is_null@[j]),
        r is Err ==> forall|j: int| 0 <= j < codec_is_null@.len() ==> codec_is_null@[j],
        r matches Err(e) ==> e == AudioError::NoAudioTrack,
{
    let mut i: usize = 0;
    while i < codec_is_null.len()
        invariant
            i <= codec_is_null@.len(),
            forall|j: int| 0 <= j < i ==> codec_is_null@[j],
        decreases codec_is_null@.len() - i,
    {
        if !codec_is_null[i] {
            return Ok(i);
        }
        i = i + 1;
    }
    Err(AudioError::NoAudioTrack)
}

/// Builds the stream metadata from what the selected track reports. A
/// track that reports no sample rate or no channel count — or reports a
/// zero where a positive count is owed — yields `MissingStreamMetadata`.
pub fn stream_info(
    sample_rate: Option<u32>,
    channels: Option<usize>,
    total_samples: usize,
) -> (r: Result<AudioInfo, AudioError>)
    ensures
        r is Ok <==> (sample_rate matches Some(sr) && sr >= 1) && (channels matches Some(c) && c
            >= 1),
        r matches Ok(info) ==> sample_rate == Some(info.sample_rate) && channels == Some(
            info.channels,
        ) && info.total_samples == total_samples && info.well_formed(),
        r matches Err(e) ==> e == AudioError::MissingStreamMetadata,
{
    match (sample_rate, channels) {
        (Some(sr), Some(c)) => {
            if sr >= 1 && c >= 1 {
                Ok(AudioInfo { sample_rate: sr, channels: c, total_samples })
            } else {
                Err(AudioError::MissingStreamMetadata)
            }
        },
        _ => Err(AudioError::MissingStreamMetadata),
    }
}

/// What the decode loop observed about one step of the stream.
#[derive(Clone, Copy, PartialEq, Eq, Structural, Debug)]
pub enum PacketStatus {
    /// A packet was read and decoded.
    Decoded,
    /// A packet was read but its payload failed to decode.
    Corrupt,
    /// The transport reached the end of the stream.
    EndOfStream,
    /// Reading or decoding failed in any other way.
    Failed,
}

/// What the decode loop does next.
#[derive(Clone, Copy, PartialEq, Eq, Structural, Debug)]
pub enum PacketAction {
    /// Keep the decoded samples and go on.
    Consume,
    /// Drop this packet and go on: one damaged packet does not make the
    /// stream unusable.
    Skip,
    /// Stop decoding normally.
    Finish,
    /// Abort the whole decode with `DecodeFailure`.
    Abort,
}

/// The decode loop's recovery policy: end of stream ends the loop
/// normally, a single corrupt packet is skipped, and any other failure is
/// fatal.
pub fn packet_policy(status: PacketStatus) -> (a: PacketAction)
    ensures
        a == (match status {
            PacketStatus::Decoded => PacketAction::Consume,
            PacketStatus::Corrupt => PacketAction::Skip,
            PacketStatus::EndOfStream => PacketAction::Finish,
            PacketStatus::Failed => PacketAction::Abort,
        }),
{
    match status {
        PacketStatus::Decoded => PacketAction::Consume,
        PacketStatus::Corrupt => PacketAction::Skip,
        PacketStatus::EndOfStream => PacketAction::Finish,
        PacketStatus::Failed => PacketAction::Abort,
    }
}

/// Accumulates the mono samples of one track while packets stream in.
pub struct DecodeState {
    pub track_id: u32,
    pub samples: Vec<u32>,
}

impl DecodeState {
    pub fn new(track_id: u32) -> (s: DecodeState)
        ensures
            s.track_id == track_id,
            s.samples@ =~= Seq::<u32>::empty(),
    {
        DecodeState { track_id, samples: Vec::new() }
    }

    /// Appends one decoded block in playback order — but only when it
    /// belongs to the selected track; a block of any other track leaves
    /// the state unchanged.
    pub fn push_block(&mut self, packet_track_id: u32, block: &Vec<u32>)
        ensures
            final(self).track_id == old(self).track_id,
            packet_track_id == old(self).track_id ==> final(self).samples@ == old(self).samples@
                + block@,
            packet_track_id != old(self).track_id ==> final(self).samples@ == old(self).samples@,
    {
        if packet_track_id != self.track_id {
            return ;
        }
        let ghost before = self.samples@;
        let mut j: usize = 0;
        while j < block.len()
            invariant
                j <= block@.len(),
                self.samples@ == before + block@.subrange(0, j as int),
                self.track_id == old(self).track_id,
            decreases block@.len() - j,
        {
            self.samples.push(block[j]);
            assert(before + block@.subrange(0, j as int) + seq![block@[j as int]] == before
                + block@.subrange(0, j + 1 as int));
            j = j + 1;
        }
        assert(block@.subrange(0, block@.len() as int) == block@);
    }

    /// Ends the decode: hands the accumulated samples on, together with
    /// the stream metadata; the total sample count is exactly what was
    /// accumulated.
    pub fn finish(self, sample_rate: u32, channels: usize) -> (r: (Vec<u32>, AudioInfo))
        requires
            sample_rate >= 1,
            channels >= 1,
        ensures
            r.0@ == self.samples@,
            r.1.sample_rate == sample_rate,
            r.1.channels == channels,
            r.1.total_samples == self.samples@.len(),
            r.1.well_formed(),
    {
        let total: usize = self.samples.len();
        (self.samples, AudioInfo { sample_rate, channels, total_samples: total })
    }
}

} // verus!
