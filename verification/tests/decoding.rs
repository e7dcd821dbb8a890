use spectral_frames::audio::{
    first_decodable_track, packet_policy, should_downmix, stereo_pairs, stream_info,
};
use spectral_frames::audio::{DecodeState, PacketAction, PacketStatus};
use spectral_frames::structs::AudioError;

#[test]
fn first_track_with_a_real_codec_is_selected() {
    let tracks = vec![true, false, true, false];
    assert_eq!(first_decodable_track(&tracks), Ok(1));
}

#[test]
fn leading_track_wins_when_decodable() {
    let tracks = vec![false, false];
    assert_eq!(first_decodable_track(&tracks), Ok(0));
}

#[test]
fn only_null_codecs_give_no_audio_track() {
    let tracks = vec![true, true, true];
    assert_eq!(first_decodable_track(&tracks), Err(AudioError::NoAudioTrack));
}

#[test]
fn empty_container_gives_no_audio_track() {
    let tracks: Vec<bool> = Vec::new();
    assert_eq!(first_decodable_track(&tracks), Err(AudioError::NoAudioTrack));
}

#[test]
fn reported_metadata_builds_stream_info() {
    let info = stream_info(Some(44100), Some(2), 88200).unwrap();
    assert_eq!(info.sample_rate, 44100);
    assert_eq!(info.channels, 2);
    assert_eq!(info.total_samples, 88200);
}

#[test]
fn missing_sample_rate_is_rejected() {
    assert_eq!(stream_info(None, Some(2), 0), Err(AudioError::MissingStreamMetadata));
}

#[test]
fn missing_channel_count_is_rejected() {
    assert_eq!(stream_info(Some(44100), None, 0), Err(AudioError::MissingStreamMetadata));
}

#[test]
fn zero_rate_or_zero_channels_are_rejected() {
    assert_eq!(stream_info(Some(0), Some(2), 0), Err(AudioError::MissingStreamMetadata));
    assert_eq!(stream_info(Some(44100), Some(0), 0), Err(AudioError::MissingStreamMetadata));
}

#[test]
fn decoded_packets_are_consumed() {
    assert_eq!(packet_policy(PacketStatus::Decoded), PacketAction::Consume);
}

#[test]
fn corrupt_packets_are_skipped_not_fatal() {
    assert_eq!(packet_policy(PacketStatus::Corrupt), PacketAction::Skip);
}

#[test]
fn end_of_stream_finishes_normally() {
    assert_eq!(packet_policy(PacketStatus::EndOfStream), PacketAction::Finish);
}

#[test]
fn any_other_failure_aborts_the_decode() {
    assert_eq!(packet_policy(PacketStatus::Failed), PacketAction::Abort);
}

#[test]
fn error_kinds_are_distinct() {
    assert_ne!(AudioError::UnreadableSource, AudioError::DecodeFailure);
    assert_ne!(AudioError::NoAudioTrack, AudioError::MissingStreamMetadata);
    assert_ne!(AudioError::DecodeFailure, AudioError::RangeBeyondAudio { start_ms: 0 });
}

#[test]
fn only_exactly_two_channels_are_downmixed() {
    assert!(should_downmix(2));
    assert!(!should_downmix(1));
    assert!(!should_downmix(3));
    assert!(!should_downmix(6));
}

#[test]
fn interleaved_stereo_samples_pair_left_with_right() {
    let left = [0.1f32, 0.3, -0.5];
    let right = [0.2f32, -0.4, 0.6];
    let mut interleaved: Vec<u32> = Vec::new();
    for (l, r) in left.iter().zip(right.iter()) {
        interleaved.push(l.to_bits());
        interleaved.push(r.to_bits());
    }
    let pairs = stereo_pairs(&interleaved);
    assert_eq!(pairs.len(), 3);
    for (k, &(l, r)) in pairs.iter().enumerate() {
        assert_eq!(f32::from_bits(l), left[k]);
        assert_eq!(f32::from_bits(r), right[k]);
        // The downmixed value of this pair is their mean, computed
        // outside the core.
        let mono = (f32::from_bits(l) + f32::from_bits(r)) / 2.0;
        assert!((mono - (left[k] + right[k]) / 2.0).abs() < 1e-6);
    }
}

#[test]
fn blocks_accumulate_in_playback_order() {
    let mut state = DecodeState::new(3);
    state.push_block(3, &vec![1u32, 2]);
    state.push_block(3, &vec![3u32]);
    let (samples, info) = state.finish(44100, 2);
    assert_eq!(samples, vec![1u32, 2, 3]);
    assert_eq!(info.total_samples, 3);
    assert_eq!(info.sample_rate, 44100);
    assert_eq!(info.channels, 2);
}

#[test]
fn blocks_of_other_tracks_are_ignored() {
    let mut state = DecodeState::new(3);
    state.push_block(3, &vec![10u32]);
    state.push_block(7, &vec![99u32, 98]);
    state.push_block(3, &vec![11u32]);
    let (samples, info) = state.finish(8000, 1);
    assert_eq!(samples, vec![10u32, 11]);
    assert_eq!(info.total_samples, 2);
}
