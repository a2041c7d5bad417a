//! Configuration of the 44.1 kHz audio VAE (the first generation), and the layer
//! layout that each configuration expands to.
use vstd::prelude::*;
use crate::audio_vae_v2::spec_strides_fit;
use crate::vae_layout::{
    ConvLayer, DecoderBlockLayout, DecoderLayout, EncoderBlockLayout, EncoderLayout, ResidualUnitLayout,
    TransposeConvLayer, spec_ceil_half, spec_conv, spec_decoder, spec_decoder_block, spec_decoder_width,
    spec_encoder, spec_encoder_block, spec_encoder_width, spec_noise_conv, spec_pow2, spec_product,
    spec_products_fit, spec_residual_unit,
};

verus! {

// ---------------------------------------------------------------------------
// Layers
// ---------------------------------------------------------------------------

/// A weight-normalised causal convolution: the input is padded on the left by
/// `2 * padding` frames.
#[derive(Clone, Copy, Debug, PartialEq, Eq)]
pub struct WNCausalConv1dConfig {
    pub channels_in: usize,
    pub channels_out: usize,
    pub kernel_size: usize,
    pub stride: usize,
    pub dilation: usize,
    pub groups: usize,
    pub padding: usize,
    pub bias: bool,
}

impl WNCausalConv1dConfig {
    /// Stride, dilation and groups 1, no padding, with bias.
    pub fn new(channels_in: usize, channels_out: usize, kernel_size: usize) -> (r: Self)
        ensures
            r == (Self { channels_in, channels_out, kernel_size, stride: 1, dilation: 1, groups: 1, padding: 0, bias: true }),
    {
        Self { channels_in, channels_out, kernel_size, stride: 1, dilation: 1, groups: 1, padding: 0, bias: true }
    }

    pub fn with_stride(self, stride: usize) -> (r: Self)
        ensures
            r == (Self { stride, ..self }),
    {
        Self { stride, ..self }
    }

    pub fn with_dilation(self, dilation: usize) -> (r: Self)
        ensures
            r == (Self { dilation, ..self }),
    {
        Self { dilation, ..self }
    }

    pub fn with_groups(self, groups: usize) -> (r: Self)
        ensures
            r == (Self { groups, ..self }),
    {
        Self { groups, ..self }
    }

    pub fn with_padding(self, padding: usize) -> (r: Self)
        ensures
            r == (Self { padding, ..self }),
    {
        Self { padding, ..self }
    }

    pub fn with_bias(self, bias: bool) -> (r: Self)
        ensures
            r == (Self { bias, ..self }),
    {
        Self { bias, ..self }
    }

    /// The convolution this configuration builds.
    pub fn layout(&self) -> (r: ConvLayer)
        requires
            2 * self.padding <= usize::MAX,
        ensures
            r == spec_conv(
                self.channels_in,
                self.channels_out,
                self.kernel_size,
                self.stride,
                self.dilation,
                self.groups,
                2 * self.padding,
                self.bias,
            ),
    {
        ConvLayer {
            channels_in: self.channels_in,
            channels_out: self.channels_out,
            kernel_size: self.kernel_size,
            stride: self.stride,
            dilation: self.dilation,
            groups: self.groups,
            left_pad: 2 * self.padding,
            bias: self.bias,
        }
    }
}

/// A weight-normalised causal transposed convolution whose output loses its last
/// `2 * padding - output_padding` frames.
#[derive(Clone, Copy, Debug, PartialEq, Eq)]
pub struct WNCausalTransposeConv1dConfig {
    pub input_dim: usize,
    pub output_dim: usize,
    pub kernel_size: usize,
    pub stride: usize,
    pub padding: usize,
    pub output_padding: usize,
    pub bias: bool,
}

impl WNCausalTransposeConv1dConfig {
    /// With bias.
    pub fn new(
        input_dim: usize,
        output_dim: usize,
        kernel_size: usize,
        stride: usize,
        padding: usize,
        output_padding: usize,
    ) -> (r: Self)
        ensures
            r == (Self { input_dim, output_dim, kernel_size, stride, padding, output_padding, bias: true }),
    {
        Self { input_dim, output_dim, kernel_size, stride, padding, output_padding, bias: true }
    }

    pub fn with_bias(self, bias: bool) -> (r: Self)
        ensures
            r == (Self { bias, ..self }),
    {
        Self { bias, ..self }
    }

    /// The transposed convolution this configuration builds.
    pub fn layout(&self) -> (r: TransposeConvLayer)
        requires
            self.output_padding <= 2 * self.padding <= usize::MAX,
        ensures
            r == (TransposeConvLayer {
                channels_in: self.input_dim,
                channels_out: self.output_dim,
                kernel_size: self.kernel_size,
                stride: self.stride,
                right_trim: (2 * self.padding - self.output_padding) as usize,
                bias: self.bias,
            }),
    {
        TransposeConvLayer {
            channels_in: self.input_dim,
            channels_out: self.output_dim,
            kernel_size: self.kernel_size,
            stride: self.stride,
            right_trim: 2 * self.padding - self.output_padding,
            bias: self.bias,
        }
    }
}

/// The Snake activation over `channels` channels.
#[derive(Clone, Copy, Debug, PartialEq, Eq)]
pub struct Snake1dConfig {
    pub channels: usize,
}

impl Snake1dConfig {
    pub fn new(channels: usize) -> (r: Self)
        ensures
            r.channels == channels,
    {
        Self { channels }
    }
}

/// Adds noise scaled by a 1x1 convolution of the input.
#[derive(Clone, Copy, Debug, PartialEq, Eq)]
pub struct NoiseBlockConfig {
    pub dim: usize,
}

impl NoiseBlockConfig {
    pub fn new(dim: usize) -> (r: Self)
        ensures
            r.dim == dim,
    {
        Self { dim }
    }

    /// The 1x1 convolution, without bias, that scales the noise.
    pub fn layout(&self) -> (r: ConvLayer)
        ensures
            r == spec_noise_conv(self.dim),
    {
        WNCausalConv1dConfig::new(self.dim, self.dim, 1).with_bias(false).layout()
    }
}

/// A residual unit: Snake, convolution of `kernel` taps dilated by `dilation`,
/// Snake, 1x1 convolution.
#[derive(Clone, Copy, Debug, PartialEq, Eq)]
pub struct CausalResidualUnitConfig {
    pub dim: usize,
    pub dilation: usize,
    pub kernel: usize,
    pub groups: usize,
}

impl CausalResidualUnitConfig {
    /// 16 channels, dilation 1, 7 taps, groups 1.
    pub fn new() -> (r: Self)
        ensures
            r == (Self { dim: 16, dilation: 1, kernel: 7, groups: 1 }),
    {
        Self { dim: 16, dilation: 1, kernel: 7, groups: 1 }
    }

    pub fn with_dim(self, dim: usize) -> (r: Self)
        ensures
            r == (Self { dim, ..self }),
    {
        Self { dim, ..self }
    }

    pub fn with_dilation(self, dilation: usize) -> (r: Self)
        ensures
            r == (Self { dilation, ..self }),
    {
        Self { dilation, ..self }
    }

    pub fn with_kernel(self, kernel: usize) -> (r: Self)
        ensures
            r == (Self { kernel, ..self }),
    {
        Self { kernel, ..self }
    }

    pub fn with_groups(self, groups: usize) -> (r: Self)
        ensures
            r == (Self { groups, ..self }),
    {
        Self { groups, ..self }
    }

    /// The unit this configuration builds: the dilated convolution is padded by
    /// `6 * dilation` frames, as for a 7-tap kernel, whatever `kernel` is.
    pub fn layout(&self) -> (r: ResidualUnitLayout)
        requires
            6 * self.dilation <= usize::MAX,
        ensures
            r == spec_residual_unit(self.dim, self.dilation, self.kernel, self.groups, 6 * self.dilation),
    {
        let pad = ((7 - 1) * self.dilation) / 2;
        assert(pad == 3 * self.dilation);
        ResidualUnitLayout {
            channels: self.dim,
            conv: WNCausalConv1dConfig::new(self.dim, self.dim, self.kernel)
                .with_dilation(self.dilation)
                .with_padding(pad)
                .with_groups(self.groups)
                .layout(),
            conv_out: WNCausalConv1dConfig::new(self.dim, self.dim, 1).layout(),
        }
    }
}

/// A downsampling block of the encoder.
#[derive(Clone, Copy, Debug, PartialEq, Eq)]
pub struct CausalEncoderBlockConfig {
    pub output_dim: usize,
    pub input_dim: Option<usize>,
    pub stride: usize,
    pub groups: usize,
}

impl CausalEncoderBlockConfig {
    /// 16 output channels, input half of that, stride 1, groups 1.
    pub fn new() -> (r: Self)
        ensures
            r == (Self { output_dim: 16, input_dim: None, stride: 1, groups: 1 }),
    {
        Self { output_dim: 16, input_dim: None, stride: 1, groups: 1 }
    }

    pub fn with_output_dim(self, output_dim: usize) -> (r: Self)
        ensures
            r == (Self { output_dim, ..self }),
    {
        Self { output_dim, ..self }
    }

    pub fn with_input_dim(self, input_dim: Option<usize>) -> (r: Self)
        ensures
            r == (Self { input_dim, ..self }),
    {
        Self { input_dim, ..self }
    }

    pub fn with_stride(self, stride: usize) -> (r: Self)
        ensures
            r == (Self { stride, ..self }),
    {
        Self { stride, ..self }
    }

    pub fn with_groups(self, groups: usize) -> (r: Self)
        ensures
            r == (Self { groups, ..self }),
    {
        Self { groups, ..self }
    }

    /// The block this configuration builds: three residual units, a Snake, and a
    /// convolution of `2 * stride` taps and the given stride, padded by twice the
    /// stride halved and rounded up.
    pub fn layout(&self) -> (r: EncoderBlockLayout)
        requires
            2 * self.stride <= usize::MAX,
        ensures
            r == spec_encoder_block(
                crate::audio_vae_v2::spec_block_input_dim(self.input_dim, self.output_dim),
                self.output_dim,
                self.stride,
                self.groups,
                false,
            ),
    {
        let input_dim = match self.input_dim {
            Some(d) => d,
            None => self.output_dim / 2,
        };
        let pad = self.stride / 2 + self.stride % 2;
        let unit = CausalResidualUnitConfig::new().with_dim(input_dim).with_groups(self.groups);
        assert(pad == spec_ceil_half(self.stride));
        EncoderBlockLayout {
            unit_d1: unit.with_dilation(1).layout(),
            unit_d3: unit.with_dilation(3).layout(),
            unit_d9: unit.with_dilation(9).layout(),
            snake_channels: input_dim,
            conv: WNCausalConv1dConfig::new(input_dim, self.output_dim, 2 * self.stride)
                .with_padding(pad)
                .with_stride(self.stride)
                .layout(),
        }
    }
}

/// An upsampling block of the decoder.
#[derive(Clone, Copy, Debug, PartialEq, Eq)]
pub struct CausalDecoderBlockConfig {
    pub input_dim: usize,
    pub output_dim: usize,
    pub stride: usize,
    pub groups: usize,
    pub use_noise_block: bool,
}

impl CausalDecoderBlockConfig {
    /// 16 channels in, 8 out, stride 1, groups 1, no noise block.
    pub fn new() -> (r: Self)
        ensures
            r == (Self { input_dim: 16, output_dim: 8, stride: 1, groups: 1, use_noise_block: false }),
    {
        Self { input_dim: 16, output_dim: 8, stride: 1, groups: 1, use_noise_block: false }
    }

    pub fn with_input_dim(self, input_dim: usize) -> (r: Self)
        ensures
            r == (Self { input_dim, ..self }),
    {
        Self { input_dim, ..self }
    }

    pub fn with_output_dim(self, output_dim: usize) -> (r: Self)
        ensures
            r == (Self { output_dim, ..self }),
    {
        Self { output_dim, ..self }
    }

    pub fn with_stride(self, stride: usize) -> (r: Self)
        ensures
            r == (Self { stride, ..self }),
    {
        Self { stride, ..self }
    }

    pub fn with_groups(self, groups: usize) -> (r: Self)
        ensures
            r == (Self { groups, ..self }),
    {
        Self { groups, ..self }
    }

    pub fn with_use_noise_block(self, use_noise_block: bool) -> (r: Self)
        ensures
            r == (Self { use_noise_block, ..self }),
    {
        Self { use_noise_block, ..self }
    }

    /// The block this configuration builds: a Snake, a transposed convolution of
    /// `2 * stride` taps with padding `ceil(stride / 2)` and output padding
    /// `stride % 2`, an optional noise block, and three residual units.
    pub fn layout(&self) -> (r: DecoderBlockLayout)
        requires
            2 * self.stride <= usize::MAX,
        ensures
            r == spec_decoder_block(self.input_dim, self.output_dim, self.stride, self.groups, self.use_noise_block),
    {
        let pad = self.stride / 2 + self.stride % 2;
        let unit = CausalResidualUnitConfig::new().with_dim(self.output_dim).with_groups(self.groups);
        let noise = if self.use_noise_block {
            Some(NoiseBlockConfig::new(self.output_dim).layout())
        } else {
            None
        };
        assert(pad == spec_ceil_half(self.stride));
        DecoderBlockLayout {
            snake_channels: self.input_dim,
            upsample: WNCausalTransposeConv1dConfig::new(
                self.input_dim,
                self.output_dim,
                2 * self.stride,
                self.stride,
                pad,
                self.stride % 2,
            ).layout(),
            noise,
            unit_d1: unit.with_dilation(1).layout(),
            unit_d3: unit.with_dilation(3).layout(),
            unit_d9: unit.with_dilation(9).layout(),
        }
    }
}

// ---------------------------------------------------------------------------
// Encoder and decoder
// ---------------------------------------------------------------------------

/// The encoder: `d_model` base channels doubled per stride, `latent_dim` latent
/// channels.
#[derive(Clone, Debug)]
pub struct CausalEncoderConfig {
    pub d_model: usize,
    pub latent_dim: usize,
    pub strides: Vec<usize>,
    pub depthwise: bool,
}

impl CausalEncoderConfig {
    /// 64 base channels, 32 latent channels, strides [2, 3, 6, 7, 7], not depthwise.
    pub fn new() -> (r: Self)
        ensures
            r.d_model == 64,
            r.latent_dim == 32,
            r.strides@ == seq![2usize, 3, 6, 7, 7],
            !r.depthwise,
    {
        Self { d_model: 64, latent_dim: 32, strides: vec![2, 3, 6, 7, 7], depthwise: false }
    }

    pub fn with_d_model(self, d_model: usize) -> (r: Self)
        ensures
            r == (Self { d_model, ..self }),
    {
        Self { d_model, ..self }
    }

    pub fn with_latent_dim(self, latent_dim: usize) -> (r: Self)
        ensures
            r == (Self { latent_dim, ..self }),
    {
        Self { latent_dim, ..self }
    }

    pub fn with_strides(self, strides: Vec<usize>) -> (r: Self)
        ensures
            r == (Self { strides, ..self }),
    {
        Self { strides, ..self }
    }

    pub fn with_depthwise(self, depthwise: bool) -> (r: Self)
        ensures
            r == (Self { depthwise, ..self }),
    {
        Self { depthwise, ..self }
    }

    /// The encoder this configuration builds: a 7-tap input convolution, one block
    /// per stride that doubles the width, and the two 3-tap heads.
    pub fn layout(&self) -> (r: EncoderLayout)
        requires
            spec_encoder_width(self.d_model, self.strides@.len()) <= usize::MAX,
            spec_strides_fit(self.strides@),
        ensures
            r@ == spec_encoder(self.d_model, self.latent_dim, self.strides@, self.depthwise, false),
    {
        let ghost target = spec_encoder(self.d_model, self.latent_dim, self.strides@, self.depthwise, false);
        let input_conv = WNCausalConv1dConfig::new(1, self.d_model, 7).with_padding(3).layout();
        let mut blocks: Vec<EncoderBlockLayout> = Vec::new();
        let mut d_model_n = self.d_model;
        let n = self.strides.len();
        let mut i: usize = 0;
        assert(spec_pow2(0) == 1);
        while i < n
            invariant
                i <= n,
                n == self.strides@.len(),
                spec_encoder_width(self.d_model, n as nat) <= usize::MAX,
                spec_strides_fit(self.strides@),
                target == spec_encoder(self.d_model, self.latent_dim, self.strides@, self.depthwise, false),
                d_model_n == spec_encoder_width(self.d_model, i as nat),
                blocks@ == target.blocks.take(i as int),
            decreases n - i,
        {
            proof {
                crate::vae_layout::lemma_encoder_width_step(self.d_model, i as nat, n as nat);
            }
            let stride = self.strides[i];
            d_model_n = d_model_n * 2;
            let groups = if self.depthwise { d_model_n / 2 } else { 1 };
            let block = CausalEncoderBlockConfig::new()
                .with_output_dim(d_model_n)
                .with_stride(stride)
                .with_groups(groups)
                .layout();
            assert(block == target.blocks[i as int]);
            blocks.push(block);
            i += 1;
            assert(blocks@ =~= target.blocks.take(i as int));
        }
        assert(target.blocks.take(n as int) =~= target.blocks);
        let head = WNCausalConv1dConfig::new(d_model_n, self.latent_dim, 3).with_padding(1).layout();
        EncoderLayout { input_conv, blocks, fc_mu: head, fc_logvar: head }
    }
}

/// The channels of the decoder's final Snake: those of its last block, or none
/// when it has no blocks.
pub open spec fn spec_final_channels(channels: usize, n_rates: nat) -> usize {
    if n_rates == 0 {
        0
    } else {
        spec_decoder_width(channels, n_rates) as usize
    }
}

/// The decoder: from `input_channel` latent channels through `channels` channels,
/// halved per rate, down to `d_out` output channels.
#[derive(Clone, Debug)]
pub struct CausalDecoderConfig {
    pub input_channel: usize,
    pub channels: usize,
    pub rates: Vec<usize>,
    pub depthwise: bool,
    pub d_out: usize,
    pub use_noise_block: bool,
}

impl CausalDecoderConfig {
    /// Not depthwise, one output channel, no noise block.
    pub fn new(input_channel: usize, channels: usize, rates: Vec<usize>) -> (r: Self)
        ensures
            r == (Self { input_channel, channels, rates, depthwise: false, d_out: 1, use_noise_block: false }),
    {
        Self { input_channel, channels, rates, depthwise: false, d_out: 1, use_noise_block: false }
    }

    pub fn with_depthwise(self, depthwise: bool) -> (r: Self)
        ensures
            r == (Self { depthwise, ..self }),
    {
        Self { depthwise, ..self }
    }

    pub fn with_d_out(self, d_out: usize) -> (r: Self)
        ensures
            r == (Self { d_out, ..self }),
    {
        Self { d_out, ..self }
    }

    pub fn with_use_noise_block(self, use_noise_block: bool) -> (r: Self)
        ensures
            r == (Self { use_noise_block, ..self }),
    {
        Self { use_noise_block, ..self }
    }

    /// The decoder this configuration builds.
    pub fn layout(&self) -> (r: DecoderLayout)
        requires
            spec_strides_fit(self.rates@),
            self.rates@.len() < usize::BITS,
        ensures
            r@ == spec_decoder(
                self.input_channel,
                self.channels,
                self.rates@,
                self.depthwise,
                self.d_out,
                self.use_noise_block,
                spec_final_channels(self.channels, self.rates@.len()),
            ),
    {
        let ghost blocks_spec = crate::vae_layout::spec_decoder_blocks(self.channels, self.rates@, self.depthwise, self.use_noise_block);
        let input_convs = if self.depthwise {
            vec![
                WNCausalConv1dConfig::new(self.input_channel, self.input_channel, 7)
                    .with_padding(3)
                    .with_groups(self.input_channel)
                    .layout(),
                WNCausalConv1dConfig::new(self.input_channel, self.channels, 1).layout(),
            ]
        } else {
            vec![WNCausalConv1dConfig::new(self.input_channel, self.channels, 7).with_padding(3).layout()]
        };
        assert(input_convs@ =~= crate::vae_layout::spec_decoder_input_convs(self.input_channel, self.channels, self.depthwise));
        let mut blocks: Vec<DecoderBlockLayout> = Vec::new();
        let mut width = self.channels;
        let mut output_dim: usize = 0;
        let n = self.rates.len();
        let mut i: usize = 0;
        assert(spec_pow2(0) == 1);
        while i < n
            invariant
                i <= n,
                n == self.rates@.len(),
                spec_strides_fit(self.rates@),
                blocks_spec == crate::vae_layout::spec_decoder_blocks(self.channels, self.rates@, self.depthwise, self.use_noise_block),
                width == spec_decoder_width(self.channels, i as nat),
                output_dim == spec_final_channels(self.channels, i as nat),
                blocks@ == blocks_spec.take(i as int),
            decreases n - i,
        {
            proof {
                crate::vae_layout::lemma_decoder_width_step(self.channels, i as nat);
            }
            let input_dim = width;
            output_dim = width / 2;
            let groups = if self.depthwise { output_dim } else { 1 };
            let block = CausalDecoderBlockConfig::new()
                .with_input_dim(input_dim)
                .with_output_dim(output_dim)
                .with_stride(self.rates[i])
                .with_groups(groups)
                .with_use_noise_block(self.use_noise_block)
                .layout();
            assert(block == blocks_spec[i as int]);
            blocks.push(block);
            width = output_dim;
            i += 1;
            assert(blocks@ =~= blocks_spec.take(i as int));
        }
        assert(blocks_spec.take(n as int) =~= blocks_spec);
        let output_conv = WNCausalConv1dConfig::new(output_dim, self.d_out, 7).with_padding(3).layout();
        DecoderLayout { input_convs, blocks, final_channels: output_dim, output_conv }
    }
}

// ---------------------------------------------------------------------------
// The whole VAE
// ---------------------------------------------------------------------------

/// Configuration of the 44.1 kHz audio VAE.
#[derive(Clone, Debug)]
pub struct AudioVaeConfig {
    pub encoder_dim: usize,
    pub encoder_rates: Vec<usize>,
    pub latent_dim: Option<usize>,
    pub decoder_dim: usize,
    pub decoder_rates: Vec<usize>,
    pub depthwise: Option<bool>,
    pub sample_rate: usize,
    pub use_noise_block: Option<bool>,
}

/// What an `AudioVaeConfig` builds: its encoder and decoder, its sample rate, and
/// how many samples one latent frame stands for.
#[derive(Clone, Debug)]
pub struct AudioVaeLayout {
    pub encoder: EncoderLayout,
    pub decoder: DecoderLayout,
    pub sample_rate: usize,
    pub hop_length: usize,
    pub latent_dim: usize,
    pub chunk_size: usize,
}

/// The latent width: the given one, else the encoder's top width.
pub open spec fn spec_vae_latent_dim(cfg: AudioVaeConfig) -> usize {
    match cfg.latent_dim {
        Some(d) => d,
        None => spec_encoder_width(cfg.encoder_dim, cfg.encoder_rates@.len()) as usize,
    }
}

/// Whether the encoder and decoder are depthwise (so by default).
pub open spec fn spec_vae_depthwise(cfg: AudioVaeConfig) -> bool {
    match cfg.depthwise {
        Some(d) => d,
        None => true,
    }
}

/// Whether the decoder blocks have noise blocks (not by default).
pub open spec fn spec_vae_noise(cfg: AudioVaeConfig) -> bool {
    match cfg.use_noise_block {
        Some(b) => b,
        None => false,
    }
}

/// The encoder of a configuration.
pub open spec fn spec_vae_encoder(cfg: AudioVaeConfig) -> crate::vae_layout::EncoderLayoutView {
    spec_encoder(cfg.encoder_dim, spec_vae_latent_dim(cfg), cfg.encoder_rates@, spec_vae_depthwise(cfg), false)
}

/// The decoder of a configuration.
pub open spec fn spec_vae_decoder(cfg: AudioVaeConfig) -> crate::vae_layout::DecoderLayoutView {
    spec_decoder(
        spec_vae_latent_dim(cfg),
        cfg.decoder_dim,
        cfg.decoder_rates@,
        spec_vae_depthwise(cfg),
        1,
        spec_vae_noise(cfg),
        spec_final_channels(cfg.decoder_dim, cfg.decoder_rates@.len()),
    )
}

impl AudioVaeConfig {
    /// The defaults: encoder 64 channels at rates [2, 3, 6, 7, 7], 64 latent channels,
    /// decoder 2048 channels at rates [7, 7, 6, 3, 2], depthwise and noise left to
    /// their defaults, 44.1 kHz.
    pub fn new() -> (r: Self)
        ensures
            r.encoder_dim == 64,
            r.encoder_rates@ == seq![2usize, 3, 6, 7, 7],
            r.latent_dim == Some(64usize),
            r.decoder_dim == 2048,
            r.decoder_rates@ == seq![7usize, 7, 6, 3, 2],
            r.depthwise is None,
            r.sample_rate == 44100,
            r.use_noise_block is None,
    {
        Self {
            encoder_dim: 64,
            encoder_rates: vec![2, 3, 6, 7, 7],
            latent_dim: Some(64),
            decoder_dim: 2048,
            decoder_rates: vec![7, 7, 6, 3, 2],
            depthwise: None,
            sample_rate: 44100,
            use_noise_block: None,
        }
    }

    pub fn with_encoder_dim(self, encoder_dim: usize) -> (r: Self)
        ensures
            r == (Self { encoder_dim, ..self }),
    {
        Self { encoder_dim, ..self }
    }

    pub fn with_encoder_rates(self, encoder_rates: Vec<usize>) -> (r: Self)
        ensures
            r == (Self { encoder_rates, ..self }),
    {
        Self { encoder_rates, ..self }
    }

    pub fn with_latent_dim(self, latent_dim: Option<usize>) -> (r: Self)
        ensures
            r == (Self { latent_dim, ..self }),
    {
        Self { latent_dim, ..self }
    }

    pub fn with_decoder_dim(self, decoder_dim: usize) -> (r: Self)
        ensures
            r == (Self { decoder_dim, ..self }),
    {
        Self { decoder_dim, ..self }
    }

    pub fn with_decoder_rates(self, decoder_rates: Vec<usize>) -> (r: Self)
        ensures
            r == (Self { decoder_rates, ..self }),
    {
        Self { decoder_rates, ..self }
    }

    pub fn with_depthwise(self, depthwise: Option<bool>) -> (r: Self)
        ensures
            r == (Self { depthwise, ..self }),
    {
        Self { depthwise, ..self }
    }

    pub fn with_sample_rate(self, sample_rate: usize) -> (r: Self)
        ensures
            r == (Self { sample_rate, ..self }),
    {
        Self { sample_rate, ..self }
    }

    pub fn with_use_noise_block(self, use_noise_block: Option<bool>) -> (r: Self)
        ensures
            r == (Self { use_noise_block, ..self }),
    {
        Self { use_noise_block, ..self }
    }

    /// The VAE this configuration builds. Its hop length (and chunk size) is the
    /// product of the encoder rates.
    pub fn layout(&self) -> (r: AudioVaeLayout)
        requires
            spec_encoder_width(self.encoder_dim, self.encoder_rates@.len()) <= usize::MAX,
            spec_strides_fit(self.encoder_rates@),
            spec_strides_fit(self.decoder_rates@),
            self.decoder_rates@.len() < usize::BITS,
            spec_products_fit(self.encoder_rates@),
        ensures
            r.encoder@ == spec_vae_encoder(*self),
            r.decoder@ == spec_vae_decoder(*self),
            r.sample_rate == self.sample_rate,
            r.hop_length == spec_product(self.encoder_rates@),
            r.latent_dim == spec_vae_latent_dim(*self),
            r.chunk_size == r.hop_length,
    {
        let latent_dim = match self.latent_dim {
            Some(d) => d,
            None => self.encoder_top_width(),
        };
        let depthwise = match self.depthwise {
            Some(d) => d,
            None => true,
        };
        let use_noise_block = match self.use_noise_block {
            Some(b) => b,
            None => false,
        };
        let encoder = CausalEncoderConfig::new()
            .with_d_model(self.encoder_dim)
            .with_latent_dim(latent_dim)
            .with_strides(self.encoder_rates.clone())
            .with_depthwise(depthwise)
            .layout();
        let decoder = CausalDecoderConfig::new(latent_dim, self.decoder_dim, self.decoder_rates.clone())
            .with_depthwise(depthwise)
            .with_use_noise_block(use_noise_block)
            .layout();
        let hop_length = crate::vae_layout::product_of(self.encoder_rates.as_slice());
        AudioVaeLayout {
            encoder,
            decoder,
            sample_rate: self.sample_rate,
            hop_length,
            latent_dim,
            chunk_size: hop_length,
        }
    }

    /// `encoder_dim * 2^n` for `n` encoder rates.
    fn encoder_top_width(&self) -> (r: usize)
        requires
            spec_encoder_width(self.encoder_dim, self.encoder_rates@.len()) <= usize::MAX,
        ensures
            r == spec_encoder_width(self.encoder_dim, self.encoder_rates@.len()),
    {
        let n = self.encoder_rates.len();
        let mut w = self.encoder_dim;
        let mut i: usize = 0;
        assert(spec_pow2(0) == 1);
        while i < n
            invariant
                i <= n,
                n == self.encoder_rates@.len(),
                spec_encoder_width(self.encoder_dim, n as nat) <= usize::MAX,
                w == spec_encoder_width(self.encoder_dim, i as nat),
            decreases n - i,
        {
            proof {
                crate::vae_layout::lemma_encoder_width_step(self.encoder_dim, i as nat, n as nat);
            }
            w = w * 2;
            i += 1;
        }
        w
    }
}

/// Audio of a whole number of hops encodes to one latent frame per hop when every
/// encoder rate is at least 2 (a rate of 1 gives one frame more), each latent frame
/// decodes to as many samples as the product of the decoder rates, and every
/// residual unit keeps the number of frames it gets.
pub proof fn lemma_vae_frames(cfg: AudioVaeConfig, frames: int)
    requires
        frames >= 1,
        spec_strides_fit(cfg.encoder_rates@),
        spec_strides_fit(cfg.decoder_rates@),
        forall|i: int| 0 <= i < cfg.encoder_rates@.len() ==> #[trigger] cfg.encoder_rates@[i] >= 2,
        forall|i: int| 0 <= i < cfg.decoder_rates@.len() ==> #[trigger] cfg.decoder_rates@[i] >= 1,
    ensures
        spec_vae_encoder(cfg).out_len(frames * spec_product(cfg.encoder_rates@)) == frames,
        crate::vae_layout::spec_encoder_units_keep(spec_vae_encoder(cfg).blocks, frames * spec_product(cfg.encoder_rates@)),
        spec_vae_decoder(cfg).out_len(frames) == frames * spec_product(cfg.decoder_rates@),
        crate::vae_layout::spec_decoder_rest_keep(spec_vae_decoder(cfg).blocks, frames),
{
    crate::vae_layout::lemma_encoder_length(
        cfg.encoder_dim,
        spec_vae_latent_dim(cfg),
        cfg.encoder_rates@,
        spec_vae_depthwise(cfg),
        false,
        frames,
    );
    crate::vae_layout::lemma_decoder_length(
        spec_vae_latent_dim(cfg),
        cfg.decoder_dim,
        cfg.decoder_rates@,
        spec_vae_depthwise(cfg),
        1,
        spec_vae_noise(cfg),
        spec_final_channels(cfg.decoder_dim, cfg.decoder_rates@.len()),
        frames,
    );
}

/// In a configuration whose widest encoder layer fits, every layer of the encoder
/// and of the decoder takes as many channels as the layer before it gives.
pub proof fn lemma_vae_chains(cfg: AudioVaeConfig)
    requires
        spec_encoder_width(cfg.encoder_dim, cfg.encoder_rates@.len()) <= usize::MAX,
    ensures
        spec_vae_encoder(cfg).chains(),
        spec_vae_decoder(cfg).chains(),
{
    crate::vae_layout::lemma_encoder_chains(
        cfg.encoder_dim,
        spec_vae_latent_dim(cfg),
        cfg.encoder_rates@,
        spec_vae_depthwise(cfg),
        false,
    );
    crate::vae_layout::lemma_decoder_width_step(cfg.decoder_dim, cfg.decoder_rates@.len());
    crate::vae_layout::lemma_decoder_chains(
        spec_vae_latent_dim(cfg),
        cfg.decoder_dim,
        cfg.decoder_rates@,
        spec_vae_depthwise(cfg),
        1,
        spec_vae_noise(cfg),
        spec_final_channels(cfg.decoder_dim, cfg.decoder_rates@.len()),
    );
}

} // verus!
