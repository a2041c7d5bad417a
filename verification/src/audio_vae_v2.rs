//! Configuration of the 48 kHz audio VAE (the second generation), and the layer
//! layout that each configuration expands to.
//!
//! Encoder rates [2, 5, 8, 8] give a hop length of 640 samples at 16 kHz; decoder
//! rates [8, 6, 5, 2, 2, 2] give 1920 output samples per latent frame at 48 kHz.
use vstd::prelude::*;
use crate::chars::char_vec;
use crate::text::chars_eq;
use crate::vae_layout::{
    ConvLayer, DecoderBlockLayout, DecoderLayout, EncoderBlockLayout, EncoderLayout, ResidualUnitLayout,
    TransposeConvLayer, spec_ceil_half, spec_conv, spec_decoder, spec_decoder_block, spec_decoder_width,
    spec_down_pad, spec_encoder, spec_encoder_block, spec_encoder_width, spec_noise_conv, spec_pow2,
    spec_product, spec_residual_unit,
};

verus! {

// ---------------------------------------------------------------------------
// Layers
// ---------------------------------------------------------------------------

/// A weight-normalised causal convolution: the input is padded on the left by
/// `2 * causal_padding - causal_output_padding` frames.
#[derive(Clone, Copy, Debug, PartialEq, Eq)]
pub struct WNCausalConv1dV2Config {
    pub channels_in: usize,
    pub channels_out: usize,
    pub kernel_size: usize,
    pub stride: usize,
    pub dilation: usize,
    pub groups: usize,
    pub causal_padding: usize,
    pub causal_output_padding: usize,
    pub bias: bool,
}

impl WNCausalConv1dV2Config {
    /// Stride, dilation and groups 1, no padding, with bias.
    pub fn new(channels_in: usize, channels_out: usize, kernel_size: usize) -> (r: Self)
        ensures
            r == (Self {
                channels_in,
                channels_out,
                kernel_size,
                stride: 1,
                dilation: 1,
                groups: 1,
                causal_padding: 0,
                causal_output_padding: 0,
                bias: true,
            }),
    {
        Self {
            channels_in,
            channels_out,
            kernel_size,
            stride: 1,
            dilation: 1,
            groups: 1,
            causal_padding: 0,
            causal_output_padding: 0,
            bias: true,
        }
    }

    pub fn with_stride(self, stride: usize) -> (r: Self)
        ensures
            r == (Self { stride, ..self }),
    {
        Self { stride, ..self }
    }

    pub fn with_dilation(self, dilation: usize) -> (r: Self)
        ensures
            r == (Self { dilation, ..self }),
    {
        Self { dilation, ..self }
    }

    pub fn with_groups(self, groups: usize) -> (r: Self)
        ensures
            r == (Self { groups, ..self }),
    {
        Self { groups, ..self }
    }

    pub fn with_causal_padding(self, causal_padding: usize) -> (r: Self)
        ensures
            r == (Self { causal_padding, ..self }),
    {
        Self { causal_padding, ..self }
    }

    pub fn with_causal_output_padding(self, causal_output_padding: usize) -> (r: Self)
        ensures
            r == (Self { causal_output_padding, ..self }),
    {
        Self { causal_output_padding, ..self }
    }

    pub fn with_bias(self, bias: bool) -> (r: Self)
        ensures
            r == (Self { bias, ..self }),
    {
        Self { bias, ..self }
    }

    /// The convolution this configuration builds.
    pub fn layout(&self) -> (r: ConvLayer)
        requires
            self.causal_output_padding <= 2 * self.causal_padding <= usize::MAX,
        ensures
            r == spec_conv(
                self.channels_in,
                self.channels_out,
                self.kernel_size,
                self.stride,
                self.dilation,
                self.groups,
                2 * self.causal_padding - self.causal_output_padding,
                self.bias,
            ),
    {
        ConvLayer {
            channels_in: self.channels_in,
            channels_out: self.channels_out,
            kernel_size: self.kernel_size,
            stride: self.stride,
            dilation: self.dilation,
            groups: self.groups,
            left_pad: 2 * self.causal_padding - self.causal_output_padding,
            bias: self.bias,
        }
    }
}

/// A weight-normalised causal transposed convolution whose output loses its last
/// `causal_trim` frames.
#[derive(Clone, Copy, Debug, PartialEq, Eq)]
pub struct WNCausalTransposeConv1dV2Config {
    pub input_dim: usize,
    pub output_dim: usize,
    pub kernel_size: usize,
    pub stride: usize,
    pub causal_trim: usize,
    pub bias: bool,
}

impl WNCausalTransposeConv1dV2Config {
    /// With bias.
    pub fn new(input_dim: usize, output_dim: usize, kernel_size: usize, stride: usize, causal_trim: usize) -> (r: Self)
        ensures
            r == (Self { input_dim, output_dim, kernel_size, stride, causal_trim, bias: true }),
    {
        Self { input_dim, output_dim, kernel_size, stride, causal_trim, bias: true }
    }

    pub fn with_bias(self, bias: bool) -> (r: Self)
        ensures
            r == (Self { bias, ..self }),
    {
        Self { bias, ..self }
    }

    /// The transposed convolution this configuration builds.
    pub fn layout(&self) -> (r: TransposeConvLayer)
        ensures
            r == (TransposeConvLayer {
                channels_in: self.input_dim,
                channels_out: self.output_dim,
                kernel_size: self.kernel_size,
                stride: self.stride,
                right_trim: self.causal_trim,
                bias: self.bias,
            }),
    {
        TransposeConvLayer {
            channels_in: self.input_dim,
            channels_out: self.output_dim,
            kernel_size: self.kernel_size,
            stride: self.stride,
            right_trim: self.causal_trim,
            bias: self.bias,
        }
    }
}

/// The Snake activation over `channels` channels.
#[derive(Clone, Copy, Debug, PartialEq, Eq)]
pub struct Snake1dV2Config {
    pub channels: usize,
}

impl Snake1dV2Config {
    pub fn new(channels: usize) -> (r: Self)
        ensures
            r.channels == channels,
    {
        Self { channels }
    }
}

/// Adds noise scaled by a 1x1 convolution of the input.
#[derive(Clone, Copy, Debug, PartialEq, Eq)]
pub struct NoiseBlockV2Config {
    pub dim: usize,
}

impl NoiseBlockV2Config {
    pub fn new(dim: usize) -> (r: Self)
        ensures
            r.dim == dim,
    {
        Self { dim }
    }

    /// The 1x1 convolution, without bias, that scales the noise.
    pub fn layout(&self) -> (r: ConvLayer)
        ensures
            r == spec_noise_conv(self.dim),
    {
        WNCausalConv1dV2Config::new(self.dim, self.dim, 1).with_bias(false).layout()
    }
}

/// A residual unit: Snake, convolution of `kernel` taps dilated by `dilation`,
/// Snake, 1x1 convolution.
#[derive(Clone, Copy, Debug, PartialEq, Eq)]
pub struct CausalResidualUnitV2Config {
    pub dim: usize,
    pub dilation: usize,
    pub kernel: usize,
    pub groups: usize,
}

impl CausalResidualUnitV2Config {
    /// 16 channels, dilation 1, 7 taps, groups 1.
    pub fn new() -> (r: Self)
        ensures
            r == (Self { dim: 16, dilation: 1, kernel: 7, groups: 1 }),
    {
        Self { dim: 16, dilation: 1, kernel: 7, groups: 1 }
    }

    pub fn with_dim(self, dim: usize) -> (r: Self)
        ensures
            r == (Self { dim, ..self }),
    {
        Self { dim, ..self }
    }

    pub fn with_dilation(self, dilation: usize) -> (r: Self)
        ensures
            r == (Self { dilation, ..self }),
    {
        Self { dilation, ..self }
    }

    pub fn with_kernel(self, kernel: usize) -> (r: Self)
        ensures
            r == (Self { kernel, ..self }),
    {
        Self { kernel, ..self }
    }

    pub fn with_groups(self, groups: usize) -> (r: Self)
        ensures
            r == (Self { groups, ..self }),
    {
        Self { groups, ..self }
    }

    /// The unit this configuration builds: the dilated convolution is padded by
    /// twice `((kernel - 1) * dilation) / 2`.
    pub fn layout(&self) -> (r: ResidualUnitLayout)
        requires
            self.kernel >= 1,
            (self.kernel - 1) * self.dilation <= usize::MAX,
        ensures
            r == spec_residual_unit(self.dim, self.dilation, self.kernel, self.groups, 2 * (((self.kernel - 1) * self.dilation) / 2)),
    {
        let pad = ((self.kernel - 1) * self.dilation) / 2;
        ResidualUnitLayout {
            channels: self.dim,
            conv: WNCausalConv1dV2Config::new(self.dim, self.dim, self.kernel)
                .with_dilation(self.dilation)
                .with_causal_padding(pad)
                .with_groups(self.groups)
                .layout(),
            conv_out: WNCausalConv1dV2Config::new(self.dim, self.dim, 1).layout(),
        }
    }
}

/// A downsampling block of the encoder.
#[derive(Clone, Copy, Debug, PartialEq, Eq)]
pub struct CausalEncoderBlockV2Config {
    pub output_dim: usize,
    pub input_dim: Option<usize>,
    pub stride: usize,
    pub groups: usize,
}

/// The input width of an encoder block: the given one, else half its output width.
pub open spec fn spec_block_input_dim(input_dim: Option<usize>, output_dim: usize) -> usize {
    match input_dim {
        Some(d) => d,
        None => (output_dim / 2) as usize,
    }
}

impl CausalEncoderBlockV2Config {
    /// 16 output channels, input half of that, stride 1, groups 1.
    pub fn new() -> (r: Self)
        ensures
            r == (Self { output_dim: 16, input_dim: None, stride: 1, groups: 1 }),
    {
        Self { output_dim: 16, input_dim: None, stride: 1, groups: 1 }
    }

    pub fn with_output_dim(self, output_dim: usize) -> (r: Self)
        ensures
            r == (Self { output_dim, ..self }),
    {
        Self { output_dim, ..self }
    }

    pub fn with_input_dim(self, input_dim: Option<usize>) -> (r: Self)
        ensures
            r == (Self { input_dim, ..self }),
    {
        Self { input_dim, ..self }
    }

    pub fn with_stride(self, stride: usize) -> (r: Self)
        ensures
            r == (Self { stride, ..self }),
    {
        Self { stride, ..self }
    }

    pub fn with_groups(self, groups: usize) -> (r: Self)
        ensures
            r == (Self { groups, ..self }),
    {
        Self { groups, ..self }
    }

    /// The block this configuration builds: three residual units, a Snake, and a
    /// convolution of `2 * stride` taps and the given stride, padded by exactly
    /// `stride` frames.
    pub fn layout(&self) -> (r: EncoderBlockLayout)
        requires
            2 * self.stride <= usize::MAX,
        ensures
            r == spec_encoder_block(
                spec_block_input_dim(self.input_dim, self.output_dim),
                self.output_dim,
                self.stride,
                self.groups,
                true,
            ),
    {
        let input_dim = match self.input_dim {
            Some(d) => d,
            None => self.output_dim / 2,
        };
        let causal_pad = self.stride / 2 + self.stride % 2;
        let causal_out_pad = self.stride % 2;
        let unit = CausalResidualUnitV2Config::new().with_dim(input_dim).with_groups(self.groups);
        let r = EncoderBlockLayout {
            unit_d1: unit.with_dilation(1).layout(),
            unit_d3: unit.with_dilation(3).layout(),
            unit_d9: unit.with_dilation(9).layout(),
            snake_channels: input_dim,
            conv: WNCausalConv1dV2Config::new(input_dim, self.output_dim, 2 * self.stride)
                .with_stride(self.stride)
                .with_causal_padding(causal_pad)
                .with_causal_output_padding(causal_out_pad)
                .layout(),
        };
        assert(causal_pad == spec_ceil_half(self.stride));
        r
    }
}

/// An upsampling block of the decoder.
#[derive(Clone, Copy, Debug, PartialEq, Eq)]
pub struct CausalDecoderBlockV2Config {
    pub input_dim: usize,
    pub output_dim: usize,
    pub stride: usize,
    pub groups: usize,
    pub use_noise_block: bool,
}

impl CausalDecoderBlockV2Config {
    /// 16 channels in, 8 out, stride 1, groups 1, no noise block.
    pub fn new() -> (r: Self)
        ensures
            r == (Self { input_dim: 16, output_dim: 8, stride: 1, groups: 1, use_noise_block: false }),
    {
        Self { input_dim: 16, output_dim: 8, stride: 1, groups: 1, use_noise_block: false }
    }

    pub fn with_input_dim(self, input_dim: usize) -> (r: Self)
        ensures
            r == (Self { input_dim, ..self }),
    {
        Self { input_dim, ..self }
    }

    pub fn with_output_dim(self, output_dim: usize) -> (r: Self)
        ensures
            r == (Self { output_dim, ..self }),
    {
        Self { output_dim, ..self }
    }

    pub fn with_stride(self, stride: usize) -> (r: Self)
        ensures
            r == (Self { stride, ..self }),
    {
        Self { stride, ..self }
    }

    pub fn with_groups(self, groups: usize) -> (r: Self)
        ensures
            r == (Self { groups, ..self }),
    {
        Self { groups, ..self }
    }

    pub fn with_use_noise_block(self, use_noise_block: bool) -> (r: Self)
        ensures
            r == (Self { use_noise_block, ..self }),
    {
        Self { use_noise_block, ..self }
    }

    /// The block this configuration builds: a Snake, a transposed convolution of
    /// `2 * stride` taps that upsamples by `stride` and is trimmed by
    /// `2 * ceil(stride / 2) - stride % 2` frames, an optional noise block, and three
    /// residual units.
    pub fn layout(&self) -> (r: DecoderBlockLayout)
        requires
            2 * self.stride <= usize::MAX,
        ensures
            r == spec_decoder_block(self.input_dim, self.output_dim, self.stride, self.groups, self.use_noise_block),
    {
        let causal_pad = self.stride / 2 + self.stride % 2;
        let causal_out_pad = self.stride % 2;
        let unit = CausalResidualUnitV2Config::new().with_dim(self.output_dim).with_groups(self.groups);
        let noise = if self.use_noise_block {
            Some(NoiseBlockV2Config::new(self.output_dim).layout())
        } else {
            None
        };
        assert(causal_pad == spec_ceil_half(self.stride));
        DecoderBlockLayout {
            snake_channels: self.input_dim,
            upsample: WNCausalTransposeConv1dV2Config::new(
                self.input_dim,
                self.output_dim,
                2 * self.stride,
                self.stride,
                2 * causal_pad - causal_out_pad,
            ).layout(),
            noise,
            unit_d1: unit.with_dilation(1).layout(),
            unit_d3: unit.with_dilation(3).layout(),
            unit_d9: unit.with_dilation(9).layout(),
        }
    }
}

// ---------------------------------------------------------------------------
// Sample-rate conditioning
// ---------------------------------------------------------------------------

/// How a decoder block is conditioned on the output sample rate.
#[derive(Clone, Copy, Debug, PartialEq, Eq, Structural)]
pub enum CondKind {
    /// Scale and shift each channel by rows of two tables (ones and zeros at first).
    ScaleBias,
    /// As `ScaleBias`, with the tables drawn near ones and zeros at first.
    ScaleBiasInit,
    /// Add a row of one table.
    Add,
    /// Append a row of one table as extra channels.
    Concat,
}

/// The conditioning that a `cond_type` names, if any.
pub open spec fn spec_cond_kind(cond_type: Seq<char>) -> Option<CondKind> {
    if cond_type == "scale_bias"@ {
        Some(CondKind::ScaleBias)
    } else if cond_type == "scale_bias_init"@ {
        Some(CondKind::ScaleBiasInit)
    } else if cond_type == "add"@ {
        Some(CondKind::Add)
    } else if cond_type == "concat"@ {
        Some(CondKind::Concat)
    } else {
        None
    }
}

/// The conditioning that `cond_type` names, if any.
pub fn cond_kind(cond_type: &str) -> (r: Option<CondKind>)
    ensures
        r == spec_cond_kind(cond_type@),
{
    let v = char_vec(cond_type);
    let n = v.len();
    assert(v@.subrange(0, n as int) =~= v@);
    if chars_eq(&v, 0, n, "scale_bias") {
        Some(CondKind::ScaleBias)
    } else if chars_eq(&v, 0, n, "scale_bias_init") {
        Some(CondKind::ScaleBiasInit)
    } else if chars_eq(&v, 0, n, "add") {
        Some(CondKind::Add)
    } else if chars_eq(&v, 0, n, "concat") {
        Some(CondKind::Concat)
    } else {
        None
    }
}

/// The sample-rate conditioning in front of one decoder block: `buckets` rows of
/// `table_width` entries, and, when `out_layer` is set and the kind is not `Add`,
/// a Snake and a 1x1 convolution back to the block's width.
#[derive(Clone, Copy, Debug, PartialEq, Eq, Structural)]
pub struct SrConditionLayout {
    pub kind: CondKind,
    pub buckets: usize,
    pub table_width: usize,
    pub out_layer: bool,
    pub out_conv: Option<ConvLayer>,
}

/// The conditioning of a block of `input_dim` channels.
pub open spec fn spec_sr_condition(input_dim: usize, buckets: usize, kind: CondKind, cond_dim: usize, out_layer: bool) -> SrConditionLayout {
    SrConditionLayout {
        kind,
        buckets,
        table_width: if kind == CondKind::Concat { cond_dim } else { input_dim },
        out_layer,
        out_conv: if out_layer && kind != CondKind::Add {
            Some(spec_conv(
                if kind == CondKind::Concat { (input_dim + cond_dim) as usize } else { input_dim },
                input_dim,
                1,
                1,
                1,
                1,
                0,
                true,
            ))
        } else {
            None
        },
    }
}

/// The conditioning layer in front of a decoder block.
#[derive(Clone, Debug)]
pub struct SampleRateConditionLayerConfig {
    pub input_dim: usize,
    pub sr_bin_buckets: usize,
    pub cond_type: String,
    pub cond_dim: usize,
    pub out_layer: bool,
}

impl SampleRateConditionLayerConfig {
    /// 16 channels, 5 buckets, "scale_bias", 128 conditioning channels, no output layer.
    pub fn new() -> (r: Self)
        ensures
            r.input_dim == 16,
            r.sr_bin_buckets == 5,
            r.cond_type@ == "scale_bias"@,
            r.cond_dim == 128,
            !r.out_layer,
    {
        Self {
            input_dim: 16,
            sr_bin_buckets: 5,
            cond_type: String::from_str("scale_bias"),
            cond_dim: 128,
            out_layer: false,
        }
    }

    pub fn with_input_dim(self, input_dim: usize) -> (r: Self)
        ensures
            r == (Self { input_dim, ..self }),
    {
        Self { input_dim, ..self }
    }

    pub fn with_sr_bin_buckets(self, sr_bin_buckets: usize) -> (r: Self)
        ensures
            r == (Self { sr_bin_buckets, ..self }),
    {
        Self { sr_bin_buckets, ..self }
    }

    pub fn with_cond_type(self, cond_type: String) -> (r: Self)
        ensures
            r == (Self { cond_type, ..self }),
    {
        Self { cond_type, ..self }
    }

    pub fn with_cond_dim(self, cond_dim: usize) -> (r: Self)
        ensures
            r == (Self { cond_dim, ..self }),
    {
        Self { cond_dim, ..self }
    }

    pub fn with_out_layer(self, out_layer: bool) -> (r: Self)
        ensures
            r == (Self { out_layer, ..self }),
    {
        Self { out_layer, ..self }
    }

    /// The conditioning this configuration builds; an unknown `cond_type` is left
    /// out, as building one is refused.
    pub fn layout(&self) -> (r: SrConditionLayout)
        requires
            spec_cond_kind(self.cond_type@) is Some,
            spec_cond_kind(self.cond_type@) == Some(CondKind::Concat) ==> self.input_dim + self.cond_dim <= usize::MAX,
        ensures
            r == spec_sr_condition(self.input_dim, self.sr_bin_buckets, spec_cond_kind(self.cond_type@)->0, self.cond_dim, self.out_layer),
    {
        let kind = match cond_kind(self.cond_type.as_str()) {
            Some(k) => k,
            None => CondKind::ScaleBias,
        };
        let out_in = match kind {
            CondKind::Concat => self.input_dim + self.cond_dim,
            _ => self.input_dim,
        };
        let table_width = match kind {
            CondKind::Concat => self.cond_dim,
            _ => self.input_dim,
        };
        let out_conv = match kind {
            CondKind::Add => None,
            _ => if self.out_layer {
                Some(WNCausalConv1dV2Config::new(out_in, self.input_dim, 1).with_causal_padding(0).layout())
            } else {
                None
            },
        };
        SrConditionLayout { kind, buckets: self.sr_bin_buckets, table_width, out_layer: self.out_layer, out_conv }
    }
}

// ---------------------------------------------------------------------------
// Encoder and decoder
// ---------------------------------------------------------------------------

/// The encoder: `d_model` base channels doubled per stride, `latent_dim` latent
/// channels.
#[derive(Clone, Debug)]
pub struct CausalEncoderV2Config {
    pub d_model: usize,
    pub latent_dim: usize,
    pub strides: Vec<usize>,
    pub depthwise: bool,
}

/// Every stride can be doubled within a `usize`.
pub open spec fn spec_strides_fit(strides: Seq<usize>) -> bool {
    forall|i: int| 0 <= i < strides.len() ==> 2 * #[trigger] strides[i] <= usize::MAX
}

impl CausalEncoderV2Config {
    /// 128 base channels, 64 latent channels, strides [2, 5, 8, 8], not depthwise.
    pub fn new() -> (r: Self)
        ensures
            r.d_model == 128,
            r.latent_dim == 64,
            r.strides@ == seq![2usize, 5, 8, 8],
            !r.depthwise,
    {
        Self { d_model: 128, latent_dim: 64, strides: vec![2, 5, 8, 8], depthwise: false }
    }

    pub fn with_d_model(self, d_model: usize) -> (r: Self)
        ensures
            r == (Self { d_model, ..self }),
    {
        Self { d_model, ..self }
    }

    pub fn with_latent_dim(self, latent_dim: usize) -> (r: Self)
        ensures
            r == (Self { latent_dim, ..self }),
    {
        Self { latent_dim, ..self }
    }

    pub fn with_strides(self, strides: Vec<usize>) -> (r: Self)
        ensures
            r == (Self { strides, ..self }),
    {
        Self { strides, ..self }
    }

    pub fn with_depthwise(self, depthwise: bool) -> (r: Self)
        ensures
            r == (Self { depthwise, ..self }),
    {
        Self { depthwise, ..self }
    }

    /// The encoder this configuration builds: a 7-tap input convolution, one block
    /// per stride that doubles the width, and the two 3-tap heads.
    pub fn layout(&self) -> (r: EncoderLayout)
        requires
            spec_encoder_width(self.d_model, self.strides@.len()) <= usize::MAX,
            spec_strides_fit(self.strides@),
        ensures
            r@ == spec_encoder(self.d_model, self.latent_dim, self.strides@, self.depthwise, true),
    {
        let ghost target = spec_encoder(self.d_model, self.latent_dim, self.strides@, self.depthwise, true);
        let input_conv = WNCausalConv1dV2Config::new(1, self.d_model, 7).with_causal_padding(3).layout();
        let mut blocks: Vec<EncoderBlockLayout> = Vec::new();
        let mut d_model_n = self.d_model;
        let n = self.strides.len();
        let mut i: usize = 0;
        assert(spec_pow2(0) == 1);
        while i < n
            invariant
                i <= n,
                n == self.strides@.len(),
                spec_encoder_width(self.d_model, n as nat) <= usize::MAX,
                spec_strides_fit(self.strides@),
                target == spec_encoder(self.d_model, self.latent_dim, self.strides@, self.depthwise, true),
                d_model_n == spec_encoder_width(self.d_model, i as nat),
                blocks@ == target.blocks.take(i as int),
            decreases n - i,
        {
            proof {
                crate::vae_layout::lemma_encoder_width_step(self.d_model, i as nat, n as nat);
            }
            let stride = self.strides[i];
            let input_dim = d_model_n;
            d_model_n = d_model_n * 2;
            let groups = if self.depthwise { d_model_n / 2 } else { 1 };
            let block = CausalEncoderBlockV2Config::new()
                .with_output_dim(d_model_n)
                .with_stride(stride)
                .with_groups(groups)
                .layout();
            assert(block == target.blocks[i as int]);
            blocks.push(block);
            i += 1;
            assert(blocks@ =~= target.blocks.take(i as int));
        }
        assert(target.blocks.take(n as int) =~= target.blocks);
        let head = WNCausalConv1dV2Config::new(d_model_n, self.latent_dim, 3).with_causal_padding(1).layout();
        EncoderLayout { input_conv, blocks, fc_mu: head, fc_logvar: head }
    }
}

/// The decoder layout together with its sample-rate conditioning: when bucket
/// boundaries are given, one conditioning layer sits in front of each block.
#[derive(Clone, Debug)]
pub struct DecoderV2Layout {
    pub stack: DecoderLayout,
    pub sr_bin_boundaries: Option<Vec<i32>>,
    pub sr_conditions: Vec<SrConditionLayout>,
}

/// The contents of a `DecoderV2Layout`.
pub ghost struct DecoderV2LayoutView {
    pub stack: crate::vae_layout::DecoderLayoutView,
    pub sr_bin_boundaries: Option<Seq<i32>>,
    pub sr_conditions: Seq<SrConditionLayout>,
}

/// The view of optional bucket boundaries.
pub open spec fn boundaries_view(b: Option<Vec<i32>>) -> Option<Seq<i32>> {
    match b {
        Some(v) => Some(v@),
        None => None,
    }
}

impl View for DecoderV2Layout {
    type V = DecoderV2LayoutView;

    open spec fn view(&self) -> DecoderV2LayoutView {
        DecoderV2LayoutView {
            stack: self.stack@,
            sr_bin_boundaries: boundaries_view(self.sr_bin_boundaries),
            sr_conditions: self.sr_conditions@,
        }
    }
}

/// The conditioning layers of a decoder: none without boundaries, else one per
/// rate over the input width of its block, with one bucket more than boundaries.
pub open spec fn spec_sr_conditions(
    channels: usize,
    n_rates: nat,
    sr_bin_boundaries: Option<Seq<i32>>,
    cond_type: Seq<char>,
    cond_dim: usize,
    cond_out_layer: bool,
) -> Seq<SrConditionLayout> {
    match sr_bin_boundaries {
        None => Seq::empty(),
        Some(b) => Seq::new(
            n_rates,
            |i: int|
                spec_sr_condition(
                    spec_decoder_width(channels, i as nat) as usize,
                    (b.len() + 1) as usize,
                    spec_cond_kind(cond_type)->0,
                    cond_dim,
                    cond_out_layer,
                ),
        ),
    }
}

/// The decoder: from `input_channel` latent channels through `channels` channels,
/// halved per rate, down to `d_out` output channels.
#[derive(Clone, Debug)]
pub struct CausalDecoderV2Config {
    pub input_channel: usize,
    pub channels: usize,
    pub rates: Vec<usize>,
    pub depthwise: bool,
    pub d_out: usize,
    pub use_noise_block: bool,
    pub sr_bin_boundaries: Option<Vec<i32>>,
    pub cond_type: String,
    pub cond_dim: usize,
    pub cond_out_layer: bool,
}

impl CausalDecoderV2Config {
    /// Not depthwise, one output channel, no noise block, no sample-rate
    /// conditioning ("scale_bias" over 128 channels, no output layer, once enabled).
    pub fn new(input_channel: usize, channels: usize, rates: Vec<usize>) -> (r: Self)
        ensures
            r.input_channel == input_channel,
            r.channels == channels,
            r.rates == rates,
            !r.depthwise,
            r.d_out == 1,
            !r.use_noise_block,
            r.sr_bin_boundaries is None,
            r.cond_type@ == "scale_bias"@,
            r.cond_dim == 128,
            !r.cond_out_layer,
    {
        Self {
            input_channel,
            channels,
            rates,
            depthwise: false,
            d_out: 1,
            use_noise_block: false,
            sr_bin_boundaries: None,
            cond_type: String::from_str("scale_bias"),
            cond_dim: 128,
            cond_out_layer: false,
        }
    }

    pub fn with_depthwise(self, depthwise: bool) -> (r: Self)
        ensures
            r == (Self { depthwise, ..self }),
    {
        Self { depthwise, ..self }
    }

    pub fn with_d_out(self, d_out: usize) -> (r: Self)
        ensures
            r == (Self { d_out, ..self }),
    {
        Self { d_out, ..self }
    }

    pub fn with_use_noise_block(self, use_noise_block: bool) -> (r: Self)
        ensures
            r == (Self { use_noise_block, ..self }),
    {
        Self { use_noise_block, ..self }
    }

    pub fn with_sr_bin_boundaries(self, sr_bin_boundaries: Option<Vec<i32>>) -> (r: Self)
        ensures
            r == (Self { sr_bin_boundaries, ..self }),
    {
        Self { sr_bin_boundaries, ..self }
    }

    pub fn with_cond_type(self, cond_type: String) -> (r: Self)
        ensures
            r == (Self { cond_type, ..self }),
    {
        Self { cond_type, ..self }
    }

    pub fn with_cond_dim(self, cond_dim: usize) -> (r: Self)
        ensures
            r == (Self { cond_dim, ..self }),
    {
        Self { cond_dim, ..self }
    }

    pub fn with_cond_out_layer(self, cond_out_layer: bool) -> (r: Self)
        ensures
            r == (Self { cond_out_layer, ..self }),
    {
        Self { cond_out_layer, ..self }
    }

    /// The decoder this configuration builds; with bucket boundaries, an unknown
    /// `cond_type` is left out, as building one is refused.
    pub fn layout(&self) -> (r: DecoderV2Layout)
        requires
            spec_strides_fit(self.rates@),
            self.rates@.len() < usize::BITS,
            self.sr_bin_boundaries matches Some(b) ==> {
                &&& spec_cond_kind(self.cond_type@) is Some
                &&& spec_cond_kind(self.cond_type@) == Some(CondKind::Concat) ==> self.channels + self.cond_dim <= usize::MAX
                &&& b@.len() + 1 <= usize::MAX
            },
        ensures
            r@.stack == spec_decoder(
                self.input_channel,
                self.channels,
                self.rates@,
                self.depthwise,
                self.d_out,
                self.use_noise_block,
                spec_decoder_width(self.channels, self.rates@.len()) as usize,
            ),
            r@.sr_bin_boundaries == boundaries_view(self.sr_bin_boundaries),
            r@.sr_conditions == spec_sr_conditions(
                self.channels,
                self.rates@.len(),
                boundaries_view(self.sr_bin_boundaries),
                self.cond_type@,
                self.cond_dim,
                self.cond_out_layer,
            ),
    {
        let ghost blocks_spec = crate::vae_layout::spec_decoder_blocks(self.channels, self.rates@, self.depthwise, self.use_noise_block);
        let ghost conds_spec = spec_sr_conditions(
            self.channels,
            self.rates@.len(),
            boundaries_view(self.sr_bin_boundaries),
            self.cond_type@,
            self.cond_dim,
            self.cond_out_layer,
        );
        let input_convs = if self.depthwise {
            vec![
                WNCausalConv1dV2Config::new(self.input_channel, self.input_channel, 7)
                    .with_causal_padding(3)
                    .with_groups(self.input_channel)
                    .layout(),
                WNCausalConv1dV2Config::new(self.input_channel, self.channels, 1).layout(),
            ]
        } else {
            vec![WNCausalConv1dV2Config::new(self.input_channel, self.channels, 7).with_causal_padding(3).layout()]
        };
        assert(input_convs@ =~= crate::vae_layout::spec_decoder_input_convs(self.input_channel, self.channels, self.depthwise));
        let buckets: usize = match &self.sr_bin_boundaries {
            Some(b) => b.len() + 1,
            None => 0,
        };
        let mut blocks: Vec<DecoderBlockLayout> = Vec::new();
        let mut conds: Vec<SrConditionLayout> = Vec::new();
        let mut width = self.channels;
        let n = self.rates.len();
        let mut i: usize = 0;
        assert(spec_pow2(0) == 1);
        while i < n
            invariant
                i <= n,
                n == self.rates@.len(),
                spec_strides_fit(self.rates@),
                self.sr_bin_boundaries matches Some(b) ==> {
                    &&& spec_cond_kind(self.cond_type@) is Some
                    &&& spec_cond_kind(self.cond_type@) == Some(CondKind::Concat) ==> self.channels + self.cond_dim <= usize::MAX
                    &&& buckets == b@.len() + 1
                },
                blocks_spec == crate::vae_layout::spec_decoder_blocks(self.channels, self.rates@, self.depthwise, self.use_noise_block),
                conds_spec == spec_sr_conditions(
                    self.channels,
                    self.rates@.len(),
                    boundaries_view(self.sr_bin_boundaries),
                    self.cond_type@,
                    self.cond_dim,
                    self.cond_out_layer,
                ),
                width == spec_decoder_width(self.channels, i as nat),
                blocks@ == blocks_spec.take(i as int),
                self.sr_bin_boundaries is Some ==> conds@ == conds_spec.take(i as int),
                self.sr_bin_boundaries is None ==> conds@ == Seq::<SrConditionLayout>::empty(),
            decreases n - i,
        {
            proof {
                crate::vae_layout::lemma_decoder_width_step(self.channels, i as nat);
            }
            let input_dim = width;
            let output_dim = width / 2;
            let groups = if self.depthwise { output_dim } else { 1 };
            let block = CausalDecoderBlockV2Config::new()
                .with_input_dim(input_dim)
                .with_output_dim(output_dim)
                .with_stride(self.rates[i])
                .with_groups(groups)
                .with_use_noise_block(self.use_noise_block)
                .layout();
            assert(block == blocks_spec[i as int]);
            blocks.push(block);
            if self.sr_bin_boundaries.is_some() {
                let cond = SampleRateConditionLayerConfig::new()
                    .with_input_dim(input_dim)
                    .with_sr_bin_buckets(buckets)
                    .with_cond_type(self.cond_type.clone())
                    .with_cond_dim(self.cond_dim)
                    .with_out_layer(self.cond_out_layer)
                    .layout();
                assert(cond == conds_spec[i as int]);
                conds.push(cond);
            }
            width = output_dim;
            i += 1;
            assert(blocks@ =~= blocks_spec.take(i as int));
            assert(self.sr_bin_boundaries is Some ==> conds@ =~= conds_spec.take(i as int));
        }
        assert(blocks_spec.take(n as int) =~= blocks_spec);
        assert(self.sr_bin_boundaries is Some ==> conds_spec.take(n as int) =~= conds_spec);
        let output_conv = WNCausalConv1dV2Config::new(width, self.d_out, 7).with_causal_padding(3).layout();
        DecoderV2Layout {
            stack: DecoderLayout { input_convs, blocks, final_channels: width, output_conv },
            sr_bin_boundaries: self.sr_bin_boundaries.clone(),
            sr_conditions: conds,
        }
    }
}

// ---------------------------------------------------------------------------
// The whole VAE
// ---------------------------------------------------------------------------

/// Configuration of the 48 kHz audio VAE.
#[derive(Clone, Debug)]
pub struct AudioVaeConfigV2 {
    pub encoder_dim: usize,
    pub encoder_rates: Vec<usize>,
    pub latent_dim: usize,
    pub decoder_dim: usize,
    pub decoder_rates: Vec<usize>,
    pub depthwise: bool,
    pub sample_rate: usize,
    pub out_sample_rate: usize,
    pub use_noise_block: bool,
    pub sr_bin_boundaries: Option<Vec<i32>>,
    pub cond_type: String,
    pub cond_dim: usize,
    pub cond_out_layer: bool,
}

/// What an `AudioVaeConfigV2` builds: its encoder and decoder, its rates, and how
/// many samples one latent frame stands for on each side.
#[derive(Clone, Debug)]
pub struct AudioVaeLayoutV2 {
    pub encoder: EncoderLayout,
    pub decoder: DecoderV2Layout,
    pub sample_rate: usize,
    pub out_sample_rate: usize,
    pub hop_length: usize,
    pub latent_dim: usize,
    pub chunk_size: usize,
    pub decode_chunk_size: usize,
}

/// The encoder of a configuration.
pub open spec fn spec_vae_v2_encoder(cfg: AudioVaeConfigV2) -> crate::vae_layout::EncoderLayoutView {
    spec_encoder(cfg.encoder_dim, cfg.latent_dim, cfg.encoder_rates@, cfg.depthwise, true)
}

/// The decoder stack of a configuration.
pub open spec fn spec_vae_v2_decoder(cfg: AudioVaeConfigV2) -> crate::vae_layout::DecoderLayoutView {
    spec_decoder(
        cfg.latent_dim,
        cfg.decoder_dim,
        cfg.decoder_rates@,
        cfg.depthwise,
        1,
        cfg.use_noise_block,
        spec_decoder_width(cfg.decoder_dim, cfg.decoder_rates@.len()) as usize,
    )
}

/// A configuration that can be built within a `usize`: its widest encoder layer,
/// every rate doubled, `2^n` for `n` decoder rates, the products of its rates, and, with bucket boundaries, a
/// known `cond_type` and (for "concat") the widened conditioning input.
pub open spec fn spec_v2_buildable(cfg: AudioVaeConfigV2) -> bool {
    &&& spec_encoder_width(cfg.encoder_dim, cfg.encoder_rates@.len()) <= usize::MAX
    &&& spec_strides_fit(cfg.encoder_rates@)
    &&& spec_strides_fit(cfg.decoder_rates@)
    &&& cfg.decoder_rates@.len() < usize::BITS
    &&& crate::vae_layout::spec_products_fit(cfg.encoder_rates@)
    &&& crate::vae_layout::spec_products_fit(cfg.decoder_rates@)
    &&& cfg.sr_bin_boundaries matches Some(b) ==> {
        &&& spec_cond_kind(cfg.cond_type@) is Some
        &&& spec_cond_kind(cfg.cond_type@) == Some(CondKind::Concat) ==> cfg.decoder_dim + cfg.cond_dim <= usize::MAX
        &&& b@.len() + 1 <= usize::MAX
    }
}

impl AudioVaeConfigV2 {
    /// The defaults: encoder 128 channels at rates [2, 5, 8, 8], 64 latent channels,
    /// decoder 2048 channels at rates [8, 6, 5, 2, 2, 2], depthwise, 16 kHz in,
    /// 48 kHz out, no noise block, no sample-rate conditioning ("scale_bias" over
    /// 128 channels without an output layer, once enabled).
    pub fn new() -> (r: Self)
        ensures
            r.encoder_dim == 128,
            r.encoder_rates@ == seq![2usize, 5, 8, 8],
            r.latent_dim == 64,
            r.decoder_dim == 2048,
            r.decoder_rates@ == seq![8usize, 6, 5, 2, 2, 2],
            r.depthwise,
            r.sample_rate == 16000,
            r.out_sample_rate == 48000,
            !r.use_noise_block,
            r.sr_bin_boundaries is None,
            r.cond_type@ == "scale_bias"@,
            r.cond_dim == 128,
            !r.cond_out_layer,
    {
        Self {
            encoder_dim: 128,
            encoder_rates: vec![2, 5, 8, 8],
            latent_dim: 64,
            decoder_dim: 2048,
            decoder_rates: vec![8, 6, 5, 2, 2, 2],
            depthwise: true,
            sample_rate: 16000,
            out_sample_rate: 48000,
            use_noise_block: false,
            sr_bin_boundaries: None,
            cond_type: String::from_str("scale_bias"),
            cond_dim: 128,
            cond_out_layer: false,
        }
    }

    pub fn with_encoder_dim(self, encoder_dim: usize) -> (r: Self)
        ensures
            r == (Self { encoder_dim, ..self }),
    {
        Self { encoder_dim, ..self }
    }

    pub fn with_encoder_rates(self, encoder_rates: Vec<usize>) -> (r: Self)
        ensures
            r == (Self { encoder_rates, ..self }),
    {
        Self { encoder_rates, ..self }
    }

    pub fn with_latent_dim(self, latent_dim: usize) -> (r: Self)
        ensures
            r == (Self { latent_dim, ..self }),
    {
        Self { latent_dim, ..self }
    }

    pub fn with_decoder_dim(self, decoder_dim: usize) -> (r: Self)
        ensures
            r == (Self { decoder_dim, ..self }),
    {
        Self { decoder_dim, ..self }
    }

    pub fn with_decoder_rates(self, decoder_rates: Vec<usize>) -> (r: Self)
        ensures
            r == (Self { decoder_rates, ..self }),
    {
        Self { decoder_rates, ..self }
    }

    pub fn with_depthwise(self, depthwise: bool) -> (r: Self)
        ensures
            r == (Self { depthwise, ..self }),
    {
        Self { depthwise, ..self }
    }

    pub fn with_sample_rate(self, sample_rate: usize) -> (r: Self)
        ensures
            r == (Self { sample_rate, ..self }),
    {
        Self { sample_rate, ..self }
    }

    pub fn with_out_sample_rate(self, out_sample_rate: usize) -> (r: Self)
        ensures
            r == (Self { out_sample_rate, ..self }),
    {
        Self { out_sample_rate, ..self }
    }

    pub fn with_use_noise_block(self, use_noise_block: bool) -> (r: Self)
        ensures
            r == (Self { use_noise_block, ..self }),
    {
        Self { use_noise_block, ..self }
    }

    pub fn with_sr_bin_boundaries(self, sr_bin_boundaries: Option<Vec<i32>>) -> (r: Self)
        ensures
            r == (Self { sr_bin_boundaries, ..self }),
    {
        Self { sr_bin_boundaries, ..self }
    }

    pub fn with_cond_type(self, cond_type: String) -> (r: Self)
        ensures
            r == (Self { cond_type, ..self }),
    {
        Self { cond_type, ..self }
    }

    pub fn with_cond_dim(self, cond_dim: usize) -> (r: Self)
        ensures
            r == (Self { cond_dim, ..self }),
    {
        Self { cond_dim, ..self }
    }

    pub fn with_cond_out_layer(self, cond_out_layer: bool) -> (r: Self)
        ensures
            r == (Self { cond_out_layer, ..self }),
    {
        Self { cond_out_layer, ..self }
    }

    /// The VAE this configuration builds. Its hop length (and encoder chunk size) is
    /// the product of the encoder rates; its decode chunk size that of the decoder
    /// rates.
    pub fn layout(&self) -> (r: AudioVaeLayoutV2)
        requires
            spec_v2_buildable(*self),
        ensures
            r.encoder@ == spec_vae_v2_encoder(*self),
            r.decoder@.stack == spec_vae_v2_decoder(*self),
            r.decoder@.sr_bin_boundaries == boundaries_view(self.sr_bin_boundaries),
            r.decoder@.sr_conditions == spec_sr_conditions(
                self.decoder_dim,
                self.decoder_rates@.len(),
                boundaries_view(self.sr_bin_boundaries),
                self.cond_type@,
                self.cond_dim,
                self.cond_out_layer,
            ),
            r.sample_rate == self.sample_rate,
            r.out_sample_rate == self.out_sample_rate,
            r.hop_length == spec_product(self.encoder_rates@),
            r.latent_dim == self.latent_dim,
            r.chunk_size == r.hop_length,
            r.decode_chunk_size == spec_product(self.decoder_rates@),
    {
        let encoder = CausalEncoderV2Config::new()
            .with_d_model(self.encoder_dim)
            .with_latent_dim(self.latent_dim)
            .with_strides(self.encoder_rates.clone())
            .with_depthwise(self.depthwise)
            .layout();
        let decoder = CausalDecoderV2Config::new(self.latent_dim, self.decoder_dim, self.decoder_rates.clone())
            .with_depthwise(self.depthwise)
            .with_use_noise_block(self.use_noise_block)
            .with_sr_bin_boundaries(self.sr_bin_boundaries.clone())
            .with_cond_type(self.cond_type.clone())
            .with_cond_dim(self.cond_dim)
            .with_cond_out_layer(self.cond_out_layer)
            .layout();
        let hop_length = crate::vae_layout::product_of(self.encoder_rates.as_slice());
        let decode_chunk_size = crate::vae_layout::product_of(self.decoder_rates.as_slice());
        AudioVaeLayoutV2 {
            encoder,
            decoder,
            sample_rate: self.sample_rate,
            out_sample_rate: self.out_sample_rate,
            hop_length,
            latent_dim: self.latent_dim,
            chunk_size: hop_length,
            decode_chunk_size,
        }
    }
}

/// Audio of a whole number of hops encodes to one latent frame per hop, each
/// latent frame decodes to `decode_chunk_size` samples, and every residual unit
/// keeps the number of frames it gets (so its check never fails).
pub proof fn lemma_vae_v2_frames(cfg: AudioVaeConfigV2, frames: int)
    requires
        frames >= 1,
        spec_strides_fit(cfg.encoder_rates@),
        spec_strides_fit(cfg.decoder_rates@),
        forall|i: int| 0 <= i < cfg.encoder_rates@.len() ==> #[trigger] cfg.encoder_rates@[i] >= 1,
        forall|i: int| 0 <= i < cfg.decoder_rates@.len() ==> #[trigger] cfg.decoder_rates@[i] >= 1,
    ensures
        spec_vae_v2_encoder(cfg).out_len(frames * spec_product(cfg.encoder_rates@)) == frames,
        crate::vae_layout::spec_encoder_units_keep(spec_vae_v2_encoder(cfg).blocks, frames * spec_product(cfg.encoder_rates@)),
        spec_vae_v2_decoder(cfg).out_len(frames) == frames * spec_product(cfg.decoder_rates@),
        crate::vae_layout::spec_decoder_rest_keep(spec_vae_v2_decoder(cfg).blocks, frames),
{
    crate::vae_layout::lemma_encoder_length(cfg.encoder_dim, cfg.latent_dim, cfg.encoder_rates@, cfg.depthwise, true, frames);
    crate::vae_layout::lemma_decoder_length(
        cfg.latent_dim,
        cfg.decoder_dim,
        cfg.decoder_rates@,
        cfg.depthwise,
        1,
        cfg.use_noise_block,
        spec_decoder_width(cfg.decoder_dim, cfg.decoder_rates@.len()) as usize,
        frames,
    );
}

/// In a buildable configuration every layer of the encoder and of the decoder takes
/// as many channels as the layer before it gives.
pub proof fn lemma_vae_v2_chains(cfg: AudioVaeConfigV2)
    requires
        spec_encoder_width(cfg.encoder_dim, cfg.encoder_rates@.len()) <= usize::MAX,
    ensures
        spec_vae_v2_encoder(cfg).chains(),
        spec_vae_v2_decoder(cfg).chains(),
{
    crate::vae_layout::lemma_encoder_chains(cfg.encoder_dim, cfg.latent_dim, cfg.encoder_rates@, cfg.depthwise, true);
    crate::vae_layout::lemma_decoder_width_step(cfg.decoder_dim, cfg.decoder_rates@.len());
    crate::vae_layout::lemma_decoder_chains(
        cfg.latent_dim,
        cfg.decoder_dim,
        cfg.decoder_rates@,
        cfg.depthwise,
        1,
        cfg.use_noise_block,
        spec_decoder_width(cfg.decoder_dim, cfg.decoder_rates@.len()) as usize,
    );
}

/// The conditioning bucket of a sample rate: how many bucket boundaries lie
/// strictly below it.
pub open spec fn spec_sr_bucket(sample_rate: int, boundaries: Seq<i32>) -> nat
    decreases boundaries.len(),
{
    if boundaries.len() == 0 {
        0
    } else {
        spec_sr_bucket(sample_rate, boundaries.drop_last()) + if sample_rate > boundaries.last() { 1nat } else { 0nat }
    }
}

/// A higher sample rate never falls in a lower conditioning bucket.
pub proof fn lemma_sr_bucket_monotone(low: int, high: int, boundaries: Seq<i32>)
    requires
        low <= high,
    ensures
        spec_sr_bucket(low, boundaries) <= spec_sr_bucket(high, boundaries),
    decreases boundaries.len(),
{
    if boundaries.len() > 0 {
        lemma_sr_bucket_monotone(low, high, boundaries.drop_last());
    }
}

/// The conditioning bucket of `sample_rate` (see `spec_sr_bucket`); there is one
/// bucket more than boundaries, so it is always a valid bucket.
pub fn sr_bucket(sample_rate: u32, boundaries: &[i32]) -> (r: usize)
    ensures
        r == spec_sr_bucket(sample_rate as int, boundaries@),
        r <= boundaries@.len(),
{
    let mut count: usize = 0;
    let mut i: usize = 0;
    while i < boundaries.len()
        invariant
            i <= boundaries@.len(),
            count == spec_sr_bucket(sample_rate as int, boundaries@.take(i as int)),
            count <= i,
        decreases boundaries@.len() - i,
    {
        assert(boundaries@.take(i as int + 1).drop_last() =~= boundaries@.take(i as int));
        if (sample_rate as i64) > (boundaries[i] as i64) {
            count += 1;
        }
        i += 1;
    }
    assert(boundaries@.take(boundaries@.len() as int) =~= boundaries@);
    count
}

} // verus!
