//! The input sequence of the speech model: the text tokens, the token that starts
//! the audio, and the frames of a reference recording, with the masks that tell
//! text positions from audio positions.
use vstd::prelude::*;
use crate::vae_layout::right_pad_to_multiple;

verus! {

/// Token ids and masks, one entry per position.
#[derive(Clone, Debug, PartialEq, Eq)]
pub struct PromptSequence {
    pub tokens: Vec<usize>,
    pub text_mask: Vec<u8>,
    pub audio_mask: Vec<u8>,
}

/// `n` copies of `x`.
pub open spec fn spec_repeat<T>(x: T, n: nat) -> Seq<T> {
    Seq::new(n, |i: int| x)
}

/// The tokens: the text ids, the audio start token, then a zero for each frame of
/// reference audio.
pub open spec fn spec_prompt_tokens(text_ids: Seq<usize>, audio_start_token: usize, audio_length: nat) -> Seq<usize> {
    text_ids.push(audio_start_token) + spec_repeat(0usize, audio_length)
}

/// 1 at the text positions (the text ids and the audio start token), 0 at the audio.
pub open spec fn spec_text_mask(text_len: nat, audio_length: nat) -> Seq<u8> {
    spec_repeat(1u8, text_len + 1) + spec_repeat(0u8, audio_length)
}

/// 0 at the text positions, 1 at the audio.
pub open spec fn spec_audio_mask(text_len: nat, audio_length: nat) -> Seq<u8> {
    spec_repeat(0u8, text_len + 1) + spec_repeat(1u8, audio_length)
}

fn push_repeat<T: Copy>(v: &mut Vec<T>, x: T, n: usize)
    ensures
        final(v)@ == old(v)@ + spec_repeat(x, n as nat),
{
    let mut i: usize = 0;
    while i < n
        invariant
            i <= n,
            v@ == old(v)@ + spec_repeat(x, i as nat),
        decreases n - i,
    {
        v.push(x);
        i += 1;
        assert(v@ =~= old(v)@ + spec_repeat(x, i as nat));
    }
}

/// The model input for `text_ids` followed by `audio_length` frames of reference
/// audio (none without a reference): every position is either text or audio.
pub fn build_prompt_sequence(text_ids: &[usize], audio_start_token: usize, audio_length: usize) -> (r: PromptSequence)
    requires
        text_ids@.len() + 1 + audio_length <= usize::MAX,
    ensures
        r.tokens@ == spec_prompt_tokens(text_ids@, audio_start_token, audio_length as nat),
        r.text_mask@ == spec_text_mask(text_ids@.len(), audio_length as nat),
        r.audio_mask@ == spec_audio_mask(text_ids@.len(), audio_length as nat),
        r.tokens@.len() == r.text_mask@.len() == r.audio_mask@.len() == text_ids@.len() + 1 + audio_length,
        forall|i: int| 0 <= i < r.tokens@.len() ==> #[trigger] r.text_mask@[i] + r.audio_mask@[i] == 1,
{
    let mut tokens: Vec<usize> = Vec::new();
    let mut i: usize = 0;
    while i < text_ids.len()
        invariant
            i <= text_ids@.len(),
            tokens@ == text_ids@.take(i as int),
        decreases text_ids@.len() - i,
    {
        tokens.push(text_ids[i]);
        i += 1;
        assert(tokens@ =~= text_ids@.take(i as int));
    }
    assert(text_ids@.take(text_ids@.len() as int) =~= text_ids@);
    tokens.push(audio_start_token);
    push_repeat(&mut tokens, 0usize, audio_length);
    let text_len = text_ids.len() + 1;
    let mut text_mask: Vec<u8> = Vec::new();
    push_repeat(&mut text_mask, 1u8, text_len);
    push_repeat(&mut text_mask, 0u8, audio_length);
    let mut audio_mask: Vec<u8> = Vec::new();
    push_repeat(&mut audio_mask, 0u8, text_len);
    push_repeat(&mut audio_mask, 1u8, audio_length);
    assert(text_mask@ =~= spec_text_mask(text_ids@.len(), audio_length as nat));
    assert(audio_mask@ =~= spec_audio_mask(text_ids@.len(), audio_length as nat));
    assert(tokens@ =~= spec_prompt_tokens(text_ids@, audio_start_token, audio_length as nat));
    PromptSequence { tokens, text_mask, audio_mask }
}

/// Zero samples appended to a reference recording of `samples` samples so that it
/// fills whole patches of `patch_size` latent frames of `chunk_size` samples each.
pub fn prompt_audio_padding(samples: usize, patch_size: usize, chunk_size: usize) -> (r: usize)
    requires
        patch_size > 0,
        chunk_size > 0,
        patch_size * chunk_size <= usize::MAX,
    ensures
        r < patch_size * chunk_size,
        (samples + r) % (patch_size * chunk_size) == 0,
        r == (patch_size * chunk_size - (samples as int) % (patch_size * chunk_size)) % (patch_size * chunk_size),
{
    assert(patch_size * chunk_size > 0) by (nonlinear_arith)
        requires
            patch_size > 0,
            chunk_size > 0,
    ;
    right_pad_to_multiple(samples, patch_size * chunk_size)
}

} // verus!
