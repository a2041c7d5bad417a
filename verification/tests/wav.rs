use voxcpm_rs::wav::{
    prompt_wav_kind, PromptWavKind, block_ranges, encode_wav_i16, overlap_plan, pcm_bytes, wav_header_unknown_length, OverlapPlan, TailUpdate,
    STREAM_BLOCK_SAMPLES,
};

#[test]
fn stream_header() {
    let h = wav_header_unknown_length(48000, 1, 16);
    assert_eq!(h.len(), 44);
    assert_eq!(&h[0..4], b"RIFF");
    assert_eq!(&h[4..8], &[0xFF, 0xFF, 0xFF, 0xFF]);
    assert_eq!(&h[8..16], b"WAVEfmt ");
    assert_eq!(&h[24..28], &48000u32.to_le_bytes());
    assert_eq!(&h[28..32], &96000u32.to_le_bytes());
    assert_eq!(&h[32..34], &2u16.to_le_bytes());
    assert_eq!(&h[36..40], b"data");
    assert_eq!(&h[40..44], &[0xFF, 0xFF, 0xFF, 0xFF]);
}

#[test]
fn pcm_is_little_endian() {
    assert_eq!(pcm_bytes(&[1, -1, 256, i16::MIN]), vec![1, 0, 0xFF, 0xFF, 0, 1, 0, 0x80]);
    assert!(pcm_bytes(&[]).is_empty());
}

#[test]
fn whole_wav_file() {
    let bytes = encode_wav_i16(&[1, -2], 16000).unwrap();
    assert_eq!(bytes.len(), 48);
    assert_eq!(&bytes[0..4], b"RIFF");
    assert_eq!(&bytes[4..8], &40u32.to_le_bytes());
    assert_eq!(&bytes[8..16], b"WAVEfmt ");
    assert_eq!(&bytes[16..20], &16u32.to_le_bytes());
    assert_eq!(&bytes[20..24], &[1, 0, 1, 0]);
    assert_eq!(&bytes[24..28], &16000u32.to_le_bytes());
    assert_eq!(&bytes[28..32], &32000u32.to_le_bytes());
    assert_eq!(&bytes[32..36], &[2, 0, 16, 0]);
    assert_eq!(&bytes[36..40], b"data");
    assert_eq!(&bytes[40..44], &4u32.to_le_bytes());
    assert_eq!(&bytes[44..48], &[1, 0, 0xFE, 0xFF]);
}

#[test]
fn blocks() {
    assert!(block_ranges(0).is_empty());
    assert_eq!(block_ranges(10), vec![(0, 10)]);
    let n = STREAM_BLOCK_SAMPLES * 2 + 5;
    assert_eq!(
        block_ranges(n),
        vec![(0, STREAM_BLOCK_SAMPLES), (STREAM_BLOCK_SAMPLES, 2 * STREAM_BLOCK_SAMPLES), (2 * STREAM_BLOCK_SAMPLES, n)]
    );
}

#[test]
fn overlap_plans() {
    // No overlap: send everything.
    assert_eq!(overlap_plan(0, 100, 0), OverlapPlan { crossfade: 0, body_start: 0, body_end: 100, tail: TailUpdate::Keep });
    // First chunk: hold back the last `overlap` samples.
    assert_eq!(overlap_plan(0, 100, 10), OverlapPlan { crossfade: 0, body_start: 0, body_end: 90, tail: TailUpdate::Replace(90) });
    // A first chunk no longer than the overlap is sent whole.
    assert_eq!(overlap_plan(0, 8, 10), OverlapPlan { crossfade: 0, body_start: 0, body_end: 8, tail: TailUpdate::Keep });
    // Later chunks: cross-fade, send the middle, hold back the end.
    assert_eq!(overlap_plan(10, 100, 10), OverlapPlan { crossfade: 10, body_start: 10, body_end: 90, tail: TailUpdate::Replace(90) });
    // A short later chunk: cross-fade what there is, clear the tail.
    assert_eq!(overlap_plan(10, 6, 10), OverlapPlan { crossfade: 6, body_start: 6, body_end: 6, tail: TailUpdate::Clear });
    // A chunk a little longer than the overlap: its new tail overlaps the cross-fade.
    assert_eq!(overlap_plan(10, 15, 10), OverlapPlan { crossfade: 10, body_start: 10, body_end: 10, tail: TailUpdate::Replace(5) });
}

#[test]
fn reference_recording_kinds() {
    assert_eq!(prompt_wav_kind(1, 16000, true), Some(PromptWavKind::MonoFloat));
    assert_eq!(prompt_wav_kind(2, 44100, true), Some(PromptWavKind::StereoFloat));
    assert_eq!(prompt_wav_kind(1, 44100, false), Some(PromptWavKind::MonoInt));
    assert_eq!(prompt_wav_kind(2, 16000, false), Some(PromptWavKind::StereoInt));
    assert_eq!(prompt_wav_kind(1, 48000, false), None);
    assert_eq!(prompt_wav_kind(3, 16000, false), None);
}

#[test]
fn finished_file_matches_stream_header() {
    let file = encode_wav_i16(&[7, 8, 9], 48000).unwrap();
    let head = wav_header_unknown_length(48000, 1, 16);
    assert_eq!(&file[0..4], &head[0..4]);
    assert_eq!(&file[8..40], &head[8..40]);
    assert_eq!(&file[44..], &pcm_bytes(&[7, 8, 9])[..]);
}
