//! The shape of the speech model: the four language models it runs (the base LM,
//! the residual LM, and the ones inside the local encoder and the local DiT), and
//! the projections between them, as its configuration sets them.
use vstd::prelude::*;

verus! {

/// The dimensions of a MiniCPM language model that the speech model reads or sets.
#[derive(Clone, Copy, Debug, PartialEq, Eq, Structural)]
pub struct LmShape {
    pub hidden_size: usize,
    pub intermediate_size: usize,
    pub num_attention_heads: usize,
    pub num_hidden_layers: usize,
    pub kv_channels: Option<usize>,
    pub vocab_size: usize,
    pub no_rope: bool,
}

/// The dimensions of the local encoder or the local DiT.
#[derive(Clone, Copy, Debug, PartialEq, Eq, Structural)]
pub struct LocalShape {
    pub hidden_dim: usize,
    pub ffn_dim: usize,
    pub num_heads: usize,
    pub num_layers: usize,
    pub kv_channels: Option<usize>,
}

/// A linear layer.
#[derive(Clone, Copy, Debug, PartialEq, Eq, Structural)]
pub struct LinearShape {
    pub in_dim: usize,
    pub out_dim: usize,
    pub bias: bool,
}

/// The scalar quantizer: a projection from `in_dim` to `latent_dim`, quantized at
/// `scale` levels, and back to `out_dim`.
#[derive(Clone, Copy, Debug, PartialEq, Eq, Structural)]
pub struct FsqShape {
    pub in_dim: usize,
    pub out_dim: usize,
    pub latent_dim: usize,
    pub scale: usize,
}

/// Everything the speech model is built from.
#[derive(Clone, Copy, Debug, PartialEq, Eq, Structural)]
pub struct VoxCpmLayout {
    pub base_lm: LmShape,
    pub residual_lm: LmShape,
    pub encoder_lm: LmShape,
    pub decoder_lm: LmShape,
    pub patch_size: usize,
    pub feat_dim: usize,
    pub max_length: usize,
    pub audio_start_token: usize,
    pub audio_end_token: usize,
    pub fsq: FsqShape,
    pub enc_to_lm_proj: LinearShape,
    pub lm_to_dit_proj: LinearShape,
    pub res_to_dit_proj: LinearShape,
    pub stop_proj: LinearShape,
    pub stop_head: LinearShape,
    pub fusion_concat_proj: LinearShape,
}

/// The residual LM: the base LM with its own depth and rotary setting, and no
/// vocabulary.
pub open spec fn spec_residual_lm(lm: LmShape, num_layers: usize, no_rope: bool) -> LmShape {
    LmShape { num_hidden_layers: num_layers, vocab_size: 0, no_rope, ..lm }
}

/// The LM inside a local module: the base LM with the module's dimensions and no
/// vocabulary.
pub open spec fn spec_local_lm(lm: LmShape, local: LocalShape) -> LmShape {
    LmShape {
        hidden_size: local.hidden_dim,
        intermediate_size: local.ffn_dim,
        num_attention_heads: local.num_heads,
        num_hidden_layers: local.num_layers,
        kv_channels: local.kv_channels,
        vocab_size: 0,
        ..lm
    }
}

/// A linear layer with bias.
pub open spec fn spec_linear(in_dim: usize, out_dim: usize) -> LinearShape {
    LinearShape { in_dim, out_dim, bias: true }
}

/// The model a configuration builds.
pub open spec fn spec_voxcpm_layout(
    lm: LmShape,
    patch_size: usize,
    feat_dim: usize,
    residual_lm_num_layers: usize,
    residual_lm_no_rope: bool,
    scalar_quantization_latent_dim: usize,
    scalar_quantization_scale: usize,
    encoder: LocalShape,
    dit: LocalShape,
    max_length: usize,
) -> VoxCpmLayout {
    let h = lm.hidden_size;
    VoxCpmLayout {
        base_lm: lm,
        residual_lm: spec_residual_lm(lm, residual_lm_num_layers, residual_lm_no_rope),
        encoder_lm: spec_local_lm(lm, encoder),
        decoder_lm: spec_local_lm(lm, dit),
        patch_size,
        feat_dim,
        max_length,
        audio_start_token: 101,
        audio_end_token: 102,
        fsq: FsqShape { in_dim: h, out_dim: h, latent_dim: scalar_quantization_latent_dim, scale: scalar_quantization_scale },
        enc_to_lm_proj: spec_linear(encoder.hidden_dim, h),
        lm_to_dit_proj: spec_linear(h, dit.hidden_dim),
        res_to_dit_proj: spec_linear(h, dit.hidden_dim),
        stop_proj: spec_linear(h, h),
        stop_head: LinearShape { in_dim: h, out_dim: 2, bias: false },
        fusion_concat_proj: spec_linear((2 * h) as usize, h),
    }
}

/// The model a configuration builds: the base LM, a residual LM of
/// `residual_lm_num_layers` layers, the LMs of the local encoder and DiT, and the
/// projections between their widths.
pub fn voxcpm_layout(
    lm: LmShape,
    patch_size: usize,
    feat_dim: usize,
    residual_lm_num_layers: usize,
    residual_lm_no_rope: bool,
    scalar_quantization_latent_dim: usize,
    scalar_quantization_scale: usize,
    encoder: LocalShape,
    dit: LocalShape,
    max_length: usize,
) -> (r: VoxCpmLayout)
    requires
        2 * lm.hidden_size <= usize::MAX,
    ensures
        r.residual_lm.no_rope == residual_lm_no_rope,
        r.residual_lm.num_hidden_layers == residual_lm_num_layers,
        r == spec_voxcpm_layout(
            lm,
            patch_size,
            feat_dim,
            residual_lm_num_layers,
            residual_lm_no_rope,
            scalar_quantization_latent_dim,
            scalar_quantization_scale,
            encoder,
            dit,
            max_length,
        ),
{
    let mut residual_lm = lm;
    residual_lm.num_hidden_layers = residual_lm_num_layers;
    residual_lm.vocab_size = 0;
    residual_lm.no_rope = residual_lm_no_rope;

    let mut encoder_lm = lm;
    encoder_lm.hidden_size = encoder.hidden_dim;
    encoder_lm.intermediate_size = encoder.ffn_dim;
    encoder_lm.num_attention_heads = encoder.num_heads;
    encoder_lm.num_hidden_layers = encoder.num_layers;
    encoder_lm.kv_channels = encoder.kv_channels;
    encoder_lm.vocab_size = 0;

    let mut decoder_lm = lm;
    decoder_lm.hidden_size = dit.hidden_dim;
    decoder_lm.intermediate_size = dit.ffn_dim;
    decoder_lm.num_attention_heads = dit.num_heads;
    decoder_lm.num_hidden_layers = dit.num_layers;
    decoder_lm.kv_channels = dit.kv_channels;
    decoder_lm.vocab_size = 0;

    let h = lm.hidden_size;
    VoxCpmLayout {
        base_lm: lm,
        residual_lm,
        encoder_lm,
        decoder_lm,
        patch_size,
        feat_dim,
        max_length,
        audio_start_token: 101,
        audio_end_token: 102,
        fsq: FsqShape { in_dim: h, out_dim: h, latent_dim: scalar_quantization_latent_dim, scale: scalar_quantization_scale },
        enc_to_lm_proj: LinearShape { in_dim: encoder.hidden_dim, out_dim: h, bias: true },
        lm_to_dit_proj: LinearShape { in_dim: h, out_dim: dit.hidden_dim, bias: true },
        res_to_dit_proj: LinearShape { in_dim: h, out_dim: dit.hidden_dim, bias: true },
        stop_proj: LinearShape { in_dim: h, out_dim: h, bias: true },
        stop_head: LinearShape { in_dim: h, out_dim: 2, bias: false },
        fusion_concat_proj: LinearShape { in_dim: 2 * h, out_dim: h, bias: true },
    }
}

/// The projections connect the models: the encoder's output feeds the base LM, the
/// base and residual LMs feed the DiT, and the fusion takes two base-LM widths back
/// to one; the local LMs have no vocabulary, as they run on embeddings.
pub proof fn lemma_voxcpm_widths_chain(
    lm: LmShape,
    patch_size: usize,
    feat_dim: usize,
    residual_lm_num_layers: usize,
    residual_lm_no_rope: bool,
    scalar_quantization_latent_dim: usize,
    scalar_quantization_scale: usize,
    encoder: LocalShape,
    dit: LocalShape,
    max_length: usize,
)
    requires
        2 * lm.hidden_size <= usize::MAX,
    ensures
        ({
            let l = spec_voxcpm_layout(
                lm,
                patch_size,
                feat_dim,
                residual_lm_num_layers,
                residual_lm_no_rope,
                scalar_quantization_latent_dim,
                scalar_quantization_scale,
                encoder,
                dit,
                max_length,
            );
            &&& l.enc_to_lm_proj.in_dim == l.encoder_lm.hidden_size
            &&& l.enc_to_lm_proj.out_dim == l.base_lm.hidden_size
            &&& l.lm_to_dit_proj.in_dim == l.base_lm.hidden_size
            &&& l.res_to_dit_proj.in_dim == l.residual_lm.hidden_size
            &&& l.lm_to_dit_proj.out_dim == l.decoder_lm.hidden_size
            &&& l.res_to_dit_proj.out_dim == l.decoder_lm.hidden_size
            &&& l.fusion_concat_proj.in_dim == 2 * l.base_lm.hidden_size
            &&& l.fusion_concat_proj.out_dim == l.residual_lm.hidden_size
            &&& l.stop_head.in_dim == l.stop_proj.out_dim
            &&& l.encoder_lm.vocab_size == 0 && l.decoder_lm.vocab_size == 0 && l.residual_lm.vocab_size == 0
        }),
{
}


/// The four language models as the configuration sets them: the residual LM has its
/// own depth and its own rotary setting (`residual_lm_no_rope`), the local encoder's
/// and DiT's LMs take those modules' widths, heads and depths; all three keep the
/// base LM's other settings and have no vocabulary.
pub proof fn lemma_voxcpm_language_models(
    lm: LmShape,
    patch_size: usize,
    feat_dim: usize,
    residual_lm_num_layers: usize,
    residual_lm_no_rope: bool,
    scalar_quantization_latent_dim: usize,
    scalar_quantization_scale: usize,
    encoder: LocalShape,
    dit: LocalShape,
    max_length: usize,
)
    ensures
        ({
            let r = spec_voxcpm_layout(lm, patch_size, feat_dim, residual_lm_num_layers, residual_lm_no_rope,
                scalar_quantization_latent_dim, scalar_quantization_scale, encoder, dit, max_length);
            &&& r.base_lm == lm
            &&& r.residual_lm.no_rope == residual_lm_no_rope
            &&& r.residual_lm.num_hidden_layers == residual_lm_num_layers
            &&& r.residual_lm.vocab_size == 0
            &&& r.residual_lm.hidden_size == lm.hidden_size
            &&& r.residual_lm.intermediate_size == lm.intermediate_size
            &&& r.residual_lm.num_attention_heads == lm.num_attention_heads
            &&& r.residual_lm.kv_channels == lm.kv_channels
            &&& r.encoder_lm.hidden_size == encoder.hidden_dim
            &&& r.encoder_lm.intermediate_size == encoder.ffn_dim
            &&& r.encoder_lm.num_attention_heads == encoder.num_heads
            &&& r.encoder_lm.num_hidden_layers == encoder.num_layers
            &&& r.encoder_lm.kv_channels == encoder.kv_channels
            &&& r.encoder_lm.vocab_size == 0
            &&& r.encoder_lm.no_rope == lm.no_rope
            &&& r.decoder_lm.hidden_size == dit.hidden_dim
            &&& r.decoder_lm.intermediate_size == dit.ffn_dim
            &&& r.decoder_lm.num_attention_heads == dit.num_heads
            &&& r.decoder_lm.num_hidden_layers == dit.num_layers
            &&& r.decoder_lm.kv_channels == dit.kv_channels
            &&& r.decoder_lm.vocab_size == 0
            &&& r.decoder_lm.no_rope == lm.no_rope
        }),
{
}

} // verus!
