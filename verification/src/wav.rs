//! Byte layouts of the audio the server sends: the WAV header of a stream of unknown
//! length, 16-bit little-endian PCM, and the blocks a stream is sent in.
use vstd::prelude::*;

verus! {

/// `x` as two little-endian bytes (`x` taken modulo 2^16).
pub open spec fn spec_le16(x: int) -> Seq<u8> {
    seq![(x % 256) as u8, ((x / 256) % 256) as u8]
}

/// `x` as four little-endian bytes (`x` taken modulo 2^32).
pub open spec fn spec_le32(x: int) -> Seq<u8> {
    seq![(x % 256) as u8, ((x / 256) % 256) as u8, ((x / 65536) % 256) as u8, ((x / 16777216) % 256) as u8]
}

/// Bytes per second of PCM audio.
pub open spec fn spec_byte_rate(sample_rate: u32, channels: u16, bits_per_sample: u16) -> int {
    sample_rate * channels * (bits_per_sample / 8)
}

/// Bytes per frame of PCM audio.
pub open spec fn spec_block_align(channels: u16, bits_per_sample: u16) -> int {
    channels * (bits_per_sample / 8)
}

/// The part of a WAV header between the RIFF size and the data size: "WAVE", the
/// 16-byte PCM `fmt ` chunk, and the "data" tag.
pub open spec fn spec_wav_fmt(sample_rate: u32, channels: u16, bits_per_sample: u16) -> Seq<u8> {
    seq![87u8, 65, 86, 69, 102, 109, 116, 32] + spec_le32(16) + spec_le16(1) + spec_le16(channels as int)
        + spec_le32(sample_rate as int) + spec_le32(spec_byte_rate(sample_rate, channels, bits_per_sample))
        + spec_le16(spec_block_align(channels, bits_per_sample)) + spec_le16(bits_per_sample as int)
        + seq![100u8, 97, 116, 97]
}

/// The 44-byte RIFF/WAVE header of integer PCM audio whose length is not known in
/// advance: both the RIFF size and the data size are 0xFFFFFFFF.
pub open spec fn spec_wav_header(sample_rate: u32, channels: u16, bits_per_sample: u16) -> Seq<u8> {
    seq![82u8, 73, 70, 70] + spec_le32(0xFFFF_FFFF) + spec_wav_fmt(sample_rate, channels, bits_per_sample)
        + spec_le32(0xFFFF_FFFF)
}

fn push_le16(out: &mut Vec<u8>, x: u16)
    ensures
        final(out)@ == old(out)@ + spec_le16(x as int),
{
    out.push((x % 256) as u8);
    out.push((x / 256) as u8);
    assert(final(out)@ =~= old(out)@ + spec_le16(x as int));
}

fn push_le32(out: &mut Vec<u8>, x: u32)
    ensures
        final(out)@ == old(out)@ + spec_le32(x as int),
{
    out.push((x % 256) as u8);
    out.push(((x / 256) % 256) as u8);
    out.push(((x / 65536) % 256) as u8);
    out.push((x / 16777216) as u8);
    assert(final(out)@ =~= old(out)@ + spec_le32(x as int));
}

fn push_bytes4(out: &mut Vec<u8>, a: u8, b: u8, c: u8, d: u8)
    ensures
        final(out)@ == old(out)@ + seq![a, b, c, d],
{
    out.push(a);
    out.push(b);
    out.push(c);
    out.push(d);
    assert(final(out)@ =~= old(out)@ + seq![a, b, c, d]);
}

/// The WAV header sent before a stream of 16-bit PCM whose length is not known yet.
pub fn wav_header_unknown_length(sample_rate: u32, channels: u16, bits_per_sample: u16) -> (r: Vec<u8>)
    requires
        spec_byte_rate(sample_rate, channels, bits_per_sample) <= u32::MAX,
        spec_block_align(channels, bits_per_sample) <= u16::MAX,
    ensures
        r@ == spec_wav_header(sample_rate, channels, bits_per_sample),
        r@.len() == 44,
{
    let mut out: Vec<u8> = Vec::new();
    push_bytes4(&mut out, 82, 73, 70, 70);
    push_le32(&mut out, 0xFFFF_FFFF);
    push_bytes4(&mut out, 87, 65, 86, 69);
    push_bytes4(&mut out, 102, 109, 116, 32);
    push_le32(&mut out, 16);
    push_le16(&mut out, 1);
    push_le16(&mut out, channels);
    push_le32(&mut out, sample_rate);
    let bytes = bits_per_sample / 8;
    let sr64 = sample_rate as u64;
    let ch64 = channels as u64;
    let by64 = bytes as u64;
    assert(sr64 * ch64 <= 0xFFFF_FFFFu64 * 0xFFFFu64) by (nonlinear_arith)
        requires sr64 <= 0xFFFF_FFFFu64, ch64 <= 0xFFFFu64;
    assert(sr64 * ch64 * by64 <= 0xFFFF_FFFFu64 * 0xFFFFu64 * 0xFFFFu64) by (nonlinear_arith)
        requires sr64 * ch64 <= 0xFFFF_FFFFu64 * 0xFFFFu64, by64 <= 0xFFFFu64;
    let byte_rate64: u64 = sr64 * ch64 * by64;
    assert(byte_rate64 == spec_byte_rate(sample_rate, channels, bits_per_sample));
    let byte_rate: u32 = byte_rate64 as u32;
    push_le32(&mut out, byte_rate);
    let block_align: u16 = channels * bytes;
    push_le16(&mut out, block_align);
    push_le16(&mut out, bits_per_sample);
    push_bytes4(&mut out, 100, 97, 116, 97);
    push_le32(&mut out, 0xFFFF_FFFF);
    assert(out@ =~= spec_wav_header(sample_rate, channels, bits_per_sample));
    out
}

/// A sample's 16 bits, two's complement.
pub open spec fn spec_sample_bits(s: i16) -> int {
    if s < 0 { s + 65536 } else { s as int }
}

/// Samples as 16-bit little-endian PCM.
pub open spec fn spec_pcm_bytes(samples: Seq<i16>) -> Seq<u8>
    decreases samples.len(),
{
    if samples.len() == 0 {
        seq![]
    } else {
        spec_pcm_bytes(samples.drop_last()) + spec_le16(spec_sample_bits(samples.last()))
    }
}

/// 16-bit samples as little-endian PCM bytes, two per sample.
pub fn pcm_bytes(samples: &[i16]) -> (r: Vec<u8>)
    ensures
        r@ == spec_pcm_bytes(samples@),
        r@.len() == 2 * samples@.len(),
{
    let mut out: Vec<u8> = Vec::new();
    let mut i: usize = 0;
    while i < samples.len()
        invariant
            i <= samples@.len(),
            out@ == spec_pcm_bytes(samples@.subrange(0, i as int)),
            out@.len() == 2 * i,
        decreases samples@.len() - i,
    {
        let s = samples[i];
        let bits: u16 = if s < 0 { (s as i32 + 65536) as u16 } else { s as u16 };
        push_le16(&mut out, bits);
        assert(samples@.subrange(0, i + 1).drop_last() =~= samples@.subrange(0, i as int));
        i += 1;
    }
    assert(samples@.subrange(0, samples@.len() as int) =~= samples@);
    out
}

/// Samples sent per message of a stream.
pub const STREAM_BLOCK_SAMPLES: usize = 4096;

/// How a run of `len` samples is cut into stream messages.
pub fn block_ranges(len: usize) -> (r: Vec<(usize, usize)>)
    ensures
        r@.len() == if len == 0 { 0 } else { (len - 1) / (STREAM_BLOCK_SAMPLES as int) + 1 },
        forall|k: int| 0 <= k < r@.len() ==> {
            &&& (#[trigger] r@[k]).0 == k * STREAM_BLOCK_SAMPLES
            &&& r@[k].1 == if (k + 1) * STREAM_BLOCK_SAMPLES <= len { (k + 1) * STREAM_BLOCK_SAMPLES } else { len as int }
        },
{
    let mut out: Vec<(usize, usize)> = Vec::new();
    let mut offset: usize = 0;
    while offset < len
        invariant
            offset <= len,
            offset < len ==> offset == out@.len() * STREAM_BLOCK_SAMPLES,
            offset == len ==> out@.len() == if len == 0 { 0 } else { (len - 1) / (STREAM_BLOCK_SAMPLES as int) + 1 },
            out@.len() == 0 ==> offset == 0,
            forall|k: int| 0 <= k < out@.len() ==> {
                &&& (#[trigger] out@[k]).0 == k * STREAM_BLOCK_SAMPLES
                &&& out@[k].1 == if (k + 1) * STREAM_BLOCK_SAMPLES <= len { (k + 1) * STREAM_BLOCK_SAMPLES } else { len as int }
            },
        decreases len - offset,
    {
        let end = if len - offset > STREAM_BLOCK_SAMPLES { offset + STREAM_BLOCK_SAMPLES } else { len };
        out.push((offset, end));
        offset = end;
        proof {
            let k = out@.len() - 1;
            if offset < len {
                assert(offset == out@.len() * STREAM_BLOCK_SAMPLES);
            } else {
                assert(k * 4096 < len);
                assert((len - 1) / (STREAM_BLOCK_SAMPLES as int) == k) by (nonlinear_arith)
                    requires
                        k * 4096 < len <= (k + 1) * 4096,
                        STREAM_BLOCK_SAMPLES == 4096,
                {
                }
            }
        }
    }
    out
}

/// What happens to the held-back tail of the previous chunk.
#[derive(Clone, Copy, Debug, PartialEq, Eq, Structural)]
pub enum TailUpdate {
    /// The tail stays as it is.
    Keep,
    /// The tail is emptied.
    Clear,
    /// The tail becomes the new chunk's samples from this index on.
    Replace(usize),
}

/// How a new chunk of a stream is sent when the end of each chunk is cross-faded
/// into the start of the next: first the first `crossfade` samples, mixed with the
/// tail, then the samples `body_start..body_end` of the chunk as they are, then the
/// tail is updated.
#[derive(Clone, Copy, Debug, PartialEq, Eq, Structural)]
pub struct OverlapPlan {
    pub crossfade: usize,
    pub body_start: usize,
    pub body_end: usize,
    pub tail: TailUpdate,
}

/// The plan for a chunk of `len` samples, with `tail_len` samples held back from
/// the previous chunk and `overlap` samples to cross-fade:
/// - without overlap or samples, the chunk is sent whole;
/// - with no tail yet, all but the last `overlap` samples are sent and those become
///   the tail (a chunk no longer than `overlap` is sent whole);
/// - otherwise the first `min(overlap, tail_len, len)` samples are cross-faded, the
///   rest up to the last `overlap` samples is sent, and those become the new tail
///   (a chunk no longer than `overlap` is sent up to its end and the tail emptied).
pub open spec fn spec_overlap_plan(tail_len: nat, len: nat, overlap: nat) -> OverlapPlan {
    if overlap == 0 || len == 0 {
        OverlapPlan { crossfade: 0, body_start: 0, body_end: len as usize, tail: TailUpdate::Keep }
    } else if tail_len == 0 {
        if len > overlap {
            OverlapPlan { crossfade: 0, body_start: 0, body_end: (len - overlap) as usize, tail: TailUpdate::Replace((len - overlap) as usize) }
        } else {
            OverlapPlan { crossfade: 0, body_start: 0, body_end: len as usize, tail: TailUpdate::Keep }
        }
    } else {
        let n = if overlap <= tail_len && overlap <= len { overlap } else if tail_len <= len { tail_len } else { len };
        let end = if len > overlap { (len - overlap) as nat } else { len };
        OverlapPlan {
            crossfade: n as usize,
            body_start: n as usize,
            body_end: if end > n { end as usize } else { n as usize },
            tail: if len > overlap { TailUpdate::Replace(end as usize) } else { TailUpdate::Clear },
        }
    }
}

/// The cross-fade plan for the next chunk of a stream (see `spec_overlap_plan`).
/// Every sample of the chunk is cross-faded, sent, or kept for the next chunk (the
/// three ranges `..crossfade`, `body_start..body_end` and the new tail cover it),
/// and no more than `overlap` samples are ever kept.
pub fn overlap_plan(tail_len: usize, len: usize, overlap: usize) -> (r: OverlapPlan)
    ensures
        r == spec_overlap_plan(tail_len as nat, len as nat, overlap as nat),
        r.crossfade <= r.body_start <= r.body_end <= len,
        r.crossfade <= tail_len,
        r.tail matches TailUpdate::Replace(k) ==> k <= len && len - k == overlap,
        r.tail is Keep ==> tail_len == 0 || overlap == 0 || len == 0,
        r.crossfade == r.body_start,
        r.tail matches TailUpdate::Replace(k) ==> k <= r.body_end,
        !(r.tail is Replace) ==> r.body_end == len,
{
    if overlap == 0 || len == 0 {
        return OverlapPlan { crossfade: 0, body_start: 0, body_end: len, tail: TailUpdate::Keep };
    }
    if tail_len == 0 {
        if len > overlap {
            return OverlapPlan { crossfade: 0, body_start: 0, body_end: len - overlap, tail: TailUpdate::Replace(len - overlap) };
        } else {
            return OverlapPlan { crossfade: 0, body_start: 0, body_end: len, tail: TailUpdate::Keep };
        }
    }
    let n = if overlap <= tail_len && overlap <= len { overlap } else if tail_len <= len { tail_len } else { len };
    let end = if len > overlap { len - overlap } else { len };
    OverlapPlan {
        crossfade: n,
        body_start: n,
        body_end: if end > n { end } else { n },
        tail: if len > overlap { TailUpdate::Replace(end) } else { TailUpdate::Clear },
    }
}

// ---------------------------------------------------------------------------
// Whole WAV files
// ---------------------------------------------------------------------------

/// `hound::Error`, the error of the WAV writer, carried through unopened.
#[verifier::external_type_specification]
#[verifier::external_body]
pub struct ExHoundError(hound::Error);

/// The bytes of a finished 16-bit mono PCM WAV file holding `samples`: the RIFF
/// header with both sizes filled in, the 16-byte `fmt ` chunk, then the data.
pub open spec fn spec_wav_file_i16(samples: Seq<i16>, sample_rate: u32) -> Seq<u8> {
    seq![82u8, 73, 70, 70] + spec_le32(36 + 2 * samples.len() as int) + spec_wav_fmt(sample_rate, 1, 16)
        + spec_le32(2 * samples.len() as int) + spec_pcm_bytes(samples)
}

/// `hound::WavWriter` over an in-memory cursor, with a mono 16-bit integer spec:
/// `new`, `write_sample` for each sample, `finalize`. Claimed: it succeeds, and the
/// bytes are the RIFF/WAVE header that hound writes for that spec (a 16-byte PCM
/// `fmt ` chunk, as for at most two channels and 16 bits), with the sizes that
/// `finalize` fills in, followed by each sample as two little-endian bytes. For this
/// spec hound's own checks pass, and its only other errors come from the writer,
/// here a cursor over a growing `Vec<u8>` that `finalize` seeks to absolute
/// positions within the bytes already written. A zero sample rate is left out:
/// hound divides by it; so are sizes whose arithmetic would overflow its `u32`s.
#[verifier::external_body]
fn hound_wav_i16(samples: &[i16], sample_rate: u32) -> (r: Result<Vec<u8>, hound::Error>)
    requires
        0 < sample_rate,
        2 * sample_rate <= u32::MAX,
        36 + 2 * samples@.len() <= u32::MAX,
    ensures
        r is Ok,
        r matches Ok(b) ==> b@ == spec_wav_file_i16(samples@, sample_rate),
{
    let spec = hound::WavSpec { channels: 1, sample_rate, bits_per_sample: 16, sample_format: hound::SampleFormat::Int };
    let mut cursor = std::io::Cursor::new(Vec::new());
    let mut writer = hound::WavWriter::new(&mut cursor, spec)?;
    for s in samples {
        writer.write_sample(*s)?;
    }
    writer.finalize()?;
    Ok(cursor.into_inner())
}

/// Why a WAV file could not be written.
#[derive(Debug)]
pub enum WavWriteError {
    /// The WAV writer failed.
    Hound(hound::Error),
}

/// A finished 16-bit mono PCM WAV file of `samples` at `sample_rate`, written by
/// hound. It always succeeds on the inputs it accepts; the error type carries
/// hound's error should the writer ever report one.
pub fn encode_wav_i16(samples: &[i16], sample_rate: u32) -> (r: Result<Vec<u8>, WavWriteError>)
    requires
        0 < sample_rate,
        2 * sample_rate <= u32::MAX,
        36 + 2 * samples@.len() <= u32::MAX,
    ensures
        r is Ok,
        r matches Ok(b) ==> b@ == spec_wav_file_i16(samples@, sample_rate),
{
    match hound_wav_i16(samples, sample_rate) {
        Ok(b) => Ok(b),
        Err(e) => Err(WavWriteError::Hound(e)),
    }
}

/// Two bytes per sample.
proof fn lemma_pcm_len(samples: Seq<i16>)
    ensures
        spec_pcm_bytes(samples).len() == 2 * samples.len(),
    decreases samples.len(),
{
    if samples.len() > 0 {
        lemma_pcm_len(samples.drop_last());
    }
}

/// A finished file and a streamed header of 16-bit mono audio at the same rate
/// agree in their first 44 bytes but the two sizes (bytes 4..8 and 40..44), which
/// a stream leaves at 0xFFFFFFFF; the file's data follows its header.
pub proof fn lemma_file_header_matches_stream(samples: Seq<i16>, sample_rate: u32)
    ensures
        spec_wav_header(sample_rate, 1, 16).len() == 44,
        spec_wav_file_i16(samples, sample_rate).subrange(0, 4) == spec_wav_header(sample_rate, 1, 16).subrange(0, 4),
        spec_wav_file_i16(samples, sample_rate).subrange(8, 40) == spec_wav_header(sample_rate, 1, 16).subrange(8, 40),
        spec_wav_file_i16(samples, sample_rate).subrange(44, 44 + 2 * samples.len() as int) == spec_pcm_bytes(samples),
{
    lemma_pcm_len(samples);
    let fmt = spec_wav_fmt(sample_rate, 1, 16);
    assert(fmt.len() == 32);
    let f = spec_wav_file_i16(samples, sample_rate);
    let h = spec_wav_header(sample_rate, 1, 16);
    assert(f.subrange(0, 4) =~= seq![82u8, 73, 70, 70]);
    assert(h.subrange(0, 4) =~= seq![82u8, 73, 70, 70]);
    assert(f.subrange(8, 40) =~= fmt);
    assert(h.subrange(8, 40) =~= fmt);
    assert(f.subrange(44, 44 + 2 * samples.len() as int) =~= spec_pcm_bytes(samples));
}

/// How a reference recording given on the command line is read.
#[derive(Clone, Copy, Debug, PartialEq, Eq, Structural)]
pub enum PromptWavKind {
    MonoFloat,
    /// Each pair of neighbouring samples is averaged (a sliding window of two).
    StereoFloat,
    MonoInt,
    /// Each left/right pair is averaged.
    StereoInt,
}

/// The reading of a reference recording: mono or stereo, float or integer samples,
/// at 16 kHz or 44.1 kHz; any other recording is refused (`None`).
pub fn prompt_wav_kind(channels: u16, sample_rate: u32, is_float: bool) -> (r: Option<PromptWavKind>)
    ensures
        r is Some <==> ((channels == 1 || channels == 2) && (sample_rate == 16000 || sample_rate == 44100)),
        r == Some(PromptWavKind::MonoFloat) <==> r is Some && channels == 1 && is_float,
        r == Some(PromptWavKind::StereoFloat) <==> r is Some && channels == 2 && is_float,
        r == Some(PromptWavKind::MonoInt) <==> r is Some && channels == 1 && !is_float,
        r == Some(PromptWavKind::StereoInt) <==> r is Some && channels == 2 && !is_float,
{
    if !(sample_rate == 16000 || sample_rate == 44100) {
        return None;
    }
    match (channels, is_float) {
        (1, true) => Some(PromptWavKind::MonoFloat),
        (2, true) => Some(PromptWavKind::StereoFloat),
        (1, false) => Some(PromptWavKind::MonoInt),
        (2, false) => Some(PromptWavKind::StereoInt),
        _ => None,
    }
}

} // verus!
