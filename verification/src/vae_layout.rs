//! Layer-by-layer layout of the causal audio VAE: the channel counts, kernels,
//! strides and paddings that its configurations expand to, and how each layer
//! changes the number of frames of the signal that runs through it.
use vstd::prelude::*;
use vstd::arithmetic::div_mod::lemma_fundamental_div_mod_converse;

verus! {

/// A weight-normalised causal 1-D convolution: the input is padded on the left by
/// `left_pad` zero frames, then convolved without further padding.
#[derive(Clone, Copy, Debug, PartialEq, Eq, Structural)]
pub struct ConvLayer {
    pub channels_in: usize,
    pub channels_out: usize,
    pub kernel_size: usize,
    pub stride: usize,
    pub dilation: usize,
    pub groups: usize,
    pub left_pad: usize,
    pub bias: bool,
}

/// A weight-normalised causal transposed 1-D convolution: it runs without padding
/// and `right_trim` frames are cut off the end of its output.
#[derive(Clone, Copy, Debug, PartialEq, Eq, Structural)]
pub struct TransposeConvLayer {
    pub channels_in: usize,
    pub channels_out: usize,
    pub kernel_size: usize,
    pub stride: usize,
    pub right_trim: usize,
    pub bias: bool,
}

/// Snake, dilated convolution, Snake, 1x1 convolution; the result is added to the
/// unit's input, so both convolutions must keep the number of frames.
#[derive(Clone, Copy, Debug, PartialEq, Eq, Structural)]
pub struct ResidualUnitLayout {
    pub channels: usize,
    pub conv: ConvLayer,
    pub conv_out: ConvLayer,
}

/// Three residual units (dilations 1, 3, 9), a Snake, then a strided convolution
/// that downsamples by `conv.stride`.
#[derive(Clone, Copy, Debug, PartialEq, Eq, Structural)]
pub struct EncoderBlockLayout {
    pub unit_d1: ResidualUnitLayout,
    pub unit_d3: ResidualUnitLayout,
    pub unit_d9: ResidualUnitLayout,
    pub snake_channels: usize,
    pub conv: ConvLayer,
}

/// A Snake, a transposed convolution that upsamples by `upsample.stride`, an
/// optional noise block, then three residual units (dilations 1, 3, 9).
#[derive(Clone, Copy, Debug, PartialEq, Eq, Structural)]
pub struct DecoderBlockLayout {
    pub snake_channels: usize,
    pub upsample: TransposeConvLayer,
    pub noise: Option<ConvLayer>,
    pub unit_d1: ResidualUnitLayout,
    pub unit_d3: ResidualUnitLayout,
    pub unit_d9: ResidualUnitLayout,
}

/// The encoder: an input convolution, the downsampling blocks, and the two heads
/// that give the latent mean and log-variance.
#[derive(Clone, Debug, PartialEq, Eq)]
pub struct EncoderLayout {
    pub input_conv: ConvLayer,
    pub blocks: Vec<EncoderBlockLayout>,
    pub fc_mu: ConvLayer,
    pub fc_logvar: ConvLayer,
}

/// The decoder: the input convolutions, the upsampling blocks, a final Snake over
/// `final_channels` channels, the output convolution and a Tanh.
#[derive(Clone, Debug, PartialEq, Eq)]
pub struct DecoderLayout {
    pub input_convs: Vec<ConvLayer>,
    pub blocks: Vec<DecoderBlockLayout>,
    pub final_channels: usize,
    pub output_conv: ConvLayer,
}

/// The contents of an `EncoderLayout`.
pub ghost struct EncoderLayoutView {
    pub input_conv: ConvLayer,
    pub blocks: Seq<EncoderBlockLayout>,
    pub fc_mu: ConvLayer,
    pub fc_logvar: ConvLayer,
}

/// The contents of a `DecoderLayout`.
pub ghost struct DecoderLayoutView {
    pub input_convs: Seq<ConvLayer>,
    pub blocks: Seq<DecoderBlockLayout>,
    pub final_channels: usize,
    pub output_conv: ConvLayer,
}

impl View for EncoderLayout {
    type V = EncoderLayoutView;

    open spec fn view(&self) -> EncoderLayoutView {
        EncoderLayoutView {
            input_conv: self.input_conv,
            blocks: self.blocks@,
            fc_mu: self.fc_mu,
            fc_logvar: self.fc_logvar,
        }
    }
}

impl View for DecoderLayout {
    type V = DecoderLayoutView;

    open spec fn view(&self) -> DecoderLayoutView {
        DecoderLayoutView {
            input_convs: self.input_convs@,
            blocks: self.blocks@,
            final_channels: self.final_channels,
            output_conv: self.output_conv,
        }
    }
}

// ---------------------------------------------------------------------------
// What the configurations expand to
// ---------------------------------------------------------------------------

/// 2 to the power `n`.
pub open spec fn spec_pow2(n: nat) -> nat
    decreases n,
{
    if n == 0 {
        1
    } else {
        2 * spec_pow2((n - 1) as nat)
    }
}

/// The product of the numbers in `s` (1 for none).
pub open spec fn spec_product(s: Seq<usize>) -> int
    decreases s.len(),
{
    if s.len() == 0 {
        1
    } else {
        spec_product(s.drop_last()) * s.last()
    }
}

/// `x / 2` rounded up.
pub open spec fn spec_ceil_half(x: usize) -> int {
    (x + 1) / 2
}

/// A convolution with the given shape.
pub open spec fn spec_conv(
    channels_in: usize,
    channels_out: usize,
    kernel_size: usize,
    stride: usize,
    dilation: usize,
    groups: usize,
    left_pad: int,
    bias: bool,
) -> ConvLayer {
    ConvLayer { channels_in, channels_out, kernel_size, stride, dilation, groups, left_pad: left_pad as usize, bias }
}

/// A residual unit over `dim` channels whose dilated convolution has the given
/// kernel, dilation, groups and left padding.
pub open spec fn spec_residual_unit(dim: usize, dilation: usize, kernel: usize, groups: usize, left_pad: int) -> ResidualUnitLayout {
    ResidualUnitLayout {
        channels: dim,
        conv: spec_conv(dim, dim, kernel, 1, dilation, groups, left_pad, true),
        conv_out: spec_conv(dim, dim, 1, 1, 1, 1, 0, true),
    }
}

/// The residual unit that the blocks use: kernel 7, padded by 6 * dilation.
pub open spec fn spec_block_unit(dim: usize, dilation: usize, groups: usize) -> ResidualUnitLayout {
    spec_residual_unit(dim, dilation, 7, groups, 6 * dilation)
}

/// The 1x1 convolution without bias of a noise block over `dim` channels.
pub open spec fn spec_noise_conv(dim: usize) -> ConvLayer {
    spec_conv(dim, dim, 1, 1, 1, 1, 0, false)
}

/// How far a downsampling convolution of the given stride pads on the left: twice
/// the stride halved and rounded up, less one for an odd stride when `exact`.
pub open spec fn spec_down_pad(stride: usize, exact: bool) -> int {
    if exact {
        2 * spec_ceil_half(stride) - stride % 2
    } else {
        2 * spec_ceil_half(stride)
    }
}

/// An encoder block from `input_dim` to `output_dim` channels.
pub open spec fn spec_encoder_block(input_dim: usize, output_dim: usize, stride: usize, groups: usize, exact: bool) -> EncoderBlockLayout {
    EncoderBlockLayout {
        unit_d1: spec_block_unit(input_dim, 1, groups),
        unit_d3: spec_block_unit(input_dim, 3, groups),
        unit_d9: spec_block_unit(input_dim, 9, groups),
        snake_channels: input_dim,
        conv: spec_conv(input_dim, output_dim, (2 * stride) as usize, stride, 1, 1, spec_down_pad(stride, exact), true),
    }
}

/// A decoder block from `input_dim` to `output_dim` channels.
pub open spec fn spec_decoder_block(input_dim: usize, output_dim: usize, stride: usize, groups: usize, use_noise_block: bool) -> DecoderBlockLayout {
    DecoderBlockLayout {
        snake_channels: input_dim,
        upsample: TransposeConvLayer {
            channels_in: input_dim,
            channels_out: output_dim,
            kernel_size: (2 * stride) as usize,
            stride,
            right_trim: (2 * spec_ceil_half(stride) - stride % 2) as usize,
            bias: true,
        },
        noise: if use_noise_block { Some(spec_noise_conv(output_dim)) } else { None },
        unit_d1: spec_block_unit(output_dim, 1, groups),
        unit_d3: spec_block_unit(output_dim, 3, groups),
        unit_d9: spec_block_unit(output_dim, 9, groups),
    }
}

/// The channels after `i` encoder blocks: `d_model * 2^i`.
pub open spec fn spec_encoder_width(d_model: usize, i: nat) -> int {
    d_model * spec_pow2(i)
}

/// The encoder blocks, one per stride; block `i` goes from `d_model * 2^i` to
/// `d_model * 2^(i+1)` channels, grouped by its input width when `depthwise`.
pub open spec fn spec_encoder_blocks(d_model: usize, strides: Seq<usize>, depthwise: bool, exact: bool) -> Seq<EncoderBlockLayout> {
    Seq::new(
        strides.len(),
        |i: int|
            spec_encoder_block(
                spec_encoder_width(d_model, i as nat) as usize,
                spec_encoder_width(d_model, (i + 1) as nat) as usize,
                strides[i],
                if depthwise { spec_encoder_width(d_model, i as nat) as usize } else { 1 },
                exact,
            ),
    )
}

/// The encoder of `d_model` base channels, `latent_dim` latent channels and the
/// given strides.
pub open spec fn spec_encoder(d_model: usize, latent_dim: usize, strides: Seq<usize>, depthwise: bool, exact: bool) -> EncoderLayoutView {
    let top = spec_encoder_width(d_model, strides.len()) as usize;
    EncoderLayoutView {
        input_conv: spec_conv(1, d_model, 7, 1, 1, 1, 6, true),
        blocks: spec_encoder_blocks(d_model, strides, depthwise, exact),
        fc_mu: spec_conv(top, latent_dim, 3, 1, 1, 1, 2, true),
        fc_logvar: spec_conv(top, latent_dim, 3, 1, 1, 1, 2, true),
    }
}

/// The channels after `i` decoder blocks: `channels / 2^i`.
pub open spec fn spec_decoder_width(channels: usize, i: nat) -> int {
    channels as int / spec_pow2(i) as int
}

/// The decoder's input convolutions: a depthwise 7-tap then a 1x1 convolution, or
/// one 7-tap convolution.
pub open spec fn spec_decoder_input_convs(input_channel: usize, channels: usize, depthwise: bool) -> Seq<ConvLayer> {
    if depthwise {
        seq![
            spec_conv(input_channel, input_channel, 7, 1, 1, input_channel, 6, true),
            spec_conv(input_channel, channels, 1, 1, 1, 1, 0, true),
        ]
    } else {
        seq![spec_conv(input_channel, channels, 7, 1, 1, 1, 6, true)]
    }
}

/// The decoder blocks, one per rate; block `i` goes from `channels / 2^i` to
/// `channels / 2^(i+1)` channels, grouped by its output width when `depthwise`.
pub open spec fn spec_decoder_blocks(channels: usize, rates: Seq<usize>, depthwise: bool, use_noise_block: bool) -> Seq<DecoderBlockLayout> {
    Seq::new(
        rates.len(),
        |i: int|
            spec_decoder_block(
                spec_decoder_width(channels, i as nat) as usize,
                spec_decoder_width(channels, (i + 1) as nat) as usize,
                rates[i],
                if depthwise { spec_decoder_width(channels, (i + 1) as nat) as usize } else { 1 },
                use_noise_block,
            ),
    )
}

/// The decoder from `input_channel` latent channels, through `channels` channels
/// halved per rate, down to `d_out` output channels; the final Snake runs over
/// `final_channels` channels.
pub open spec fn spec_decoder(
    input_channel: usize,
    channels: usize,
    rates: Seq<usize>,
    depthwise: bool,
    d_out: usize,
    use_noise_block: bool,
    final_channels: usize,
) -> DecoderLayoutView {
    DecoderLayoutView {
        input_convs: spec_decoder_input_convs(input_channel, channels, depthwise),
        blocks: spec_decoder_blocks(channels, rates, depthwise, use_noise_block),
        final_channels,
        output_conv: spec_conv(final_channels, d_out, 7, 1, 1, 1, 6, true),
    }
}

// ---------------------------------------------------------------------------
// Frame counts
// ---------------------------------------------------------------------------

impl ConvLayer {
    /// Frames out of the convolution for `len` frames in.
    pub open spec fn out_len(self, len: int) -> int {
        (len + self.left_pad - self.dilation * (self.kernel_size - 1) - 1) / (self.stride as int) + 1
    }
}

impl TransposeConvLayer {
    /// Frames out of the transposed convolution for `len` frames in.
    pub open spec fn out_len(self, len: int) -> int {
        (len - 1) * self.stride + self.kernel_size - self.right_trim
    }
}

impl ResidualUnitLayout {
    /// Both convolutions of the unit give back as many frames as they get.
    pub open spec fn keeps_length(self, len: int) -> bool {
        &&& self.conv.out_len(len) == len
        &&& self.conv_out.out_len(len) == len
    }
}

impl EncoderBlockLayout {
    /// The residual units keep `len` frames, and the block gives `conv.out_len(len)`.
    pub open spec fn out_len(self, len: int) -> int {
        self.conv.out_len(len)
    }

    pub open spec fn units_keep_length(self, len: int) -> bool {
        &&& self.unit_d1.keeps_length(len)
        &&& self.unit_d3.keeps_length(len)
        &&& self.unit_d9.keeps_length(len)
    }
}

impl DecoderBlockLayout {
    /// Frames out of the block: the upsampling sets them, the other layers keep them.
    pub open spec fn out_len(self, len: int) -> int {
        self.upsample.out_len(len)
    }

    pub open spec fn rest_keeps_length(self, len: int) -> bool {
        &&& (self.noise matches Some(c) ==> c.out_len(len) == len)
        &&& self.unit_d1.keeps_length(len)
        &&& self.unit_d3.keeps_length(len)
        &&& self.unit_d9.keeps_length(len)
    }
}

/// Frames out of a run of encoder blocks.
pub open spec fn spec_encoder_blocks_len(blocks: Seq<EncoderBlockLayout>, len: int) -> int
    decreases blocks.len(),
{
    if blocks.len() == 0 {
        len
    } else {
        blocks.last().out_len(spec_encoder_blocks_len(blocks.drop_last(), len))
    }
}

/// Every residual unit of a run of encoder blocks keeps the frames it gets.
pub open spec fn spec_encoder_units_keep(blocks: Seq<EncoderBlockLayout>, len: int) -> bool
    decreases blocks.len(),
{
    if blocks.len() == 0 {
        true
    } else {
        spec_encoder_units_keep(blocks.drop_last(), len)
            && blocks.last().units_keep_length(spec_encoder_blocks_len(blocks.drop_last(), len))
    }
}

/// Frames out of a run of decoder blocks.
pub open spec fn spec_decoder_blocks_len(blocks: Seq<DecoderBlockLayout>, len: int) -> int
    decreases blocks.len(),
{
    if blocks.len() == 0 {
        len
    } else {
        blocks.last().out_len(spec_decoder_blocks_len(blocks.drop_last(), len))
    }
}

/// After its upsampling, every layer of a run of decoder blocks keeps the frames it gets.
pub open spec fn spec_decoder_rest_keep(blocks: Seq<DecoderBlockLayout>, len: int) -> bool
    decreases blocks.len(),
{
    if blocks.len() == 0 {
        true
    } else {
        spec_decoder_rest_keep(blocks.drop_last(), len)
            && blocks.last().rest_keeps_length(spec_decoder_blocks_len(blocks, len))
    }
}

/// Frames out of a run of convolutions.
pub open spec fn spec_convs_len(convs: Seq<ConvLayer>, len: int) -> int
    decreases convs.len(),
{
    if convs.len() == 0 {
        len
    } else {
        convs.last().out_len(spec_convs_len(convs.drop_last(), len))
    }
}

impl EncoderLayoutView {
    /// Latent frames the encoder gives for `len` audio frames.
    pub open spec fn out_len(self, len: int) -> int {
        self.fc_mu.out_len(spec_encoder_blocks_len(self.blocks, self.input_conv.out_len(len)))
    }
}

impl DecoderLayoutView {
    /// Audio frames the decoder gives for `len` latent frames.
    pub open spec fn out_len(self, len: int) -> int {
        self.output_conv.out_len(spec_decoder_blocks_len(self.blocks, spec_convs_len(self.input_convs, len)))
    }
}

// ---------------------------------------------------------------------------
// How the frame counts compose
// ---------------------------------------------------------------------------

/// `(q * d + r) / d == q` for `0 <= r < d`.
proof fn lemma_div_exact(q: int, d: int, r: int)
    requires
        d > 0,
        0 <= r < d,
    ensures
        (q * d + r) / d == q,
{
    lemma_fundamental_div_mod_converse(q * d + r, d, q, r);
}

/// A stride-1 convolution padded by `dilation * (kernel_size - 1)` keeps the frames.
proof fn lemma_conv_keeps_length(c: ConvLayer, len: int)
    requires
        c.stride == 1,
        c.left_pad == c.dilation * (c.kernel_size - 1),
    ensures
        c.out_len(len) == len,
{
    lemma_div_exact(len - 1, 1, 0);
}

/// The residual unit of a block keeps the frames it gets.
pub proof fn lemma_block_unit_keeps_length(dim: usize, dilation: usize, groups: usize, len: int)
    requires
        6 * dilation <= usize::MAX,
    ensures
        spec_block_unit(dim, dilation, groups).keeps_length(len),
{
    let u = spec_block_unit(dim, dilation, groups);
    assert(u.conv.dilation * (u.conv.kernel_size - 1) == 6 * dilation) by (nonlinear_arith)
        requires
            u.conv.dilation == dilation,
            u.conv.kernel_size == 7,
    ;
    lemma_conv_keeps_length(u.conv, len);
    assert(u.conv_out.dilation * (u.conv_out.kernel_size - 1) == 0) by (nonlinear_arith)
        requires
            u.conv_out.kernel_size == 1,
    ;
    lemma_conv_keeps_length(u.conv_out, len);
}

/// An encoder block turns `frames * stride` frames into `frames`, and its residual
/// units keep the frames they get.
pub proof fn lemma_encoder_block_length(input_dim: usize, output_dim: usize, stride: usize, groups: usize, exact: bool, frames: int)
    requires
        frames >= 1,
        stride >= (if exact { 1int } else { 2int }),
        2 * stride <= usize::MAX,
    ensures
        spec_encoder_block(input_dim, output_dim, stride, groups, exact).out_len(frames * stride) == frames,
        spec_encoder_block(input_dim, output_dim, stride, groups, exact).units_keep_length(frames * stride),
{
    let b = spec_encoder_block(input_dim, output_dim, stride, groups, exact);
    lemma_block_unit_keeps_length(input_dim, 1, groups, frames * stride);
    lemma_block_unit_keeps_length(input_dim, 3, groups, frames * stride);
    lemma_block_unit_keeps_length(input_dim, 9, groups, frames * stride);
    let e: int = spec_down_pad(stride, exact) - stride;
    assert(0 <= e < stride);
    assert(b.conv.dilation * (b.conv.kernel_size - 1) == 2 * stride - 1);
    assert(frames * stride + b.conv.left_pad - (2 * stride - 1) - 1 == (frames - 1) * stride + e) by (nonlinear_arith)
        requires
            b.conv.left_pad == stride + e,
    ;
    lemma_div_exact(frames - 1, stride as int, e);
}

/// A run of encoder blocks turns `frames` times the product of the strides into
/// `frames`, and every residual unit on the way keeps the frames it gets.
pub proof fn lemma_encoder_blocks_length(d_model: usize, strides: Seq<usize>, depthwise: bool, exact: bool, frames: int)
    requires
        frames >= 1,
        forall|i: int| 0 <= i < strides.len() ==> strides[i] >= (if exact { 1int } else { 2int }) && 2 * strides[i] <= usize::MAX,
    ensures
        spec_product(strides) >= 1,
        spec_encoder_blocks_len(spec_encoder_blocks(d_model, strides, depthwise, exact), frames * spec_product(strides)) == frames,
        spec_encoder_units_keep(spec_encoder_blocks(d_model, strides, depthwise, exact), frames * spec_product(strides)),
    decreases strides.len(),
{
    let blocks = spec_encoder_blocks(d_model, strides, depthwise, exact);
    if strides.len() > 0 {
        let pre = strides.drop_last();
        let s = strides.last();
        assert(blocks.drop_last() =~= spec_encoder_blocks(d_model, pre, depthwise, exact));
        assert forall|i: int| 0 <= i < pre.len() implies pre[i] >= (if exact { 1int } else { 2int }) && 2 * pre[i] <= usize::MAX by {
            assert(pre[i] == strides[i]);
        }
        assert(s == strides[strides.len() - 1]);
        assert(frames * s >= 1) by (nonlinear_arith)
            requires
                frames >= 1,
                s >= 1,
        ;
        lemma_encoder_blocks_length(d_model, pre, depthwise, exact, frames * s);
        assert(frames * spec_product(strides) == (frames * s) * spec_product(pre)) by (nonlinear_arith)
            requires
                spec_product(strides) == spec_product(pre) * s,
        ;
        assert(spec_product(strides) >= 1) by (nonlinear_arith)
            requires
                spec_product(strides) == spec_product(pre) * s,
                spec_product(pre) >= 1,
                s >= 1,
        ;
        let i = strides.len() - 1;
        assert(blocks.last() == blocks[i]);
        lemma_encoder_block_length(
            spec_encoder_width(d_model, i as nat) as usize,
            spec_encoder_width(d_model, (i + 1) as nat) as usize,
            s,
            if depthwise { spec_encoder_width(d_model, i as nat) as usize } else { 1 },
            exact,
            frames,
        );
    } else {
        assert(frames * spec_product(strides) == frames);
    }
}

/// A decoder block turns `frames` frames into `frames * stride`, and the layers after
/// its upsampling keep the frames they get.
pub proof fn lemma_decoder_block_length(input_dim: usize, output_dim: usize, stride: usize, groups: usize, use_noise_block: bool, frames: int)
    requires
        frames >= 0,
        stride >= 1,
        2 * stride <= usize::MAX,
    ensures
        spec_decoder_block(input_dim, output_dim, stride, groups, use_noise_block).out_len(frames) == frames * stride,
        spec_decoder_block(input_dim, output_dim, stride, groups, use_noise_block).rest_keeps_length(frames * stride),
{
    let b = spec_decoder_block(input_dim, output_dim, stride, groups, use_noise_block);
    assert(b.upsample.right_trim == stride);
    assert((frames - 1) * stride + 2 * stride - stride == frames * stride) by (nonlinear_arith);
    lemma_block_unit_keeps_length(output_dim, 1, groups, frames * stride);
    lemma_block_unit_keeps_length(output_dim, 3, groups, frames * stride);
    lemma_block_unit_keeps_length(output_dim, 9, groups, frames * stride);
    lemma_div_exact(frames * stride - 1, 1, 0);
}

/// A run of decoder blocks turns `frames` frames into `frames` times the product of
/// the rates, and every layer after an upsampling keeps the frames it gets.
pub proof fn lemma_decoder_blocks_length(channels: usize, rates: Seq<usize>, depthwise: bool, use_noise_block: bool, frames: int)
    requires
        frames >= 0,
        forall|i: int| 0 <= i < rates.len() ==> rates[i] >= 1 && 2 * rates[i] <= usize::MAX,
    ensures
        spec_decoder_blocks_len(spec_decoder_blocks(channels, rates, depthwise, use_noise_block), frames) == frames * spec_product(rates),
        spec_decoder_rest_keep(spec_decoder_blocks(channels, rates, depthwise, use_noise_block), frames),
        frames * spec_product(rates) >= 0,
    decreases rates.len(),
{
    let blocks = spec_decoder_blocks(channels, rates, depthwise, use_noise_block);
    if rates.len() > 0 {
        let pre = rates.drop_last();
        let s = rates.last();
        assert(blocks.drop_last() =~= spec_decoder_blocks(channels, pre, depthwise, use_noise_block));
        assert forall|i: int| 0 <= i < pre.len() implies pre[i] >= 1 && 2 * pre[i] <= usize::MAX by {
            assert(pre[i] == rates[i]);
        }
        assert(s == rates[rates.len() - 1]);
        lemma_decoder_blocks_length(channels, pre, depthwise, use_noise_block, frames);
        let i = rates.len() - 1;
        assert(blocks.last() == blocks[i]);
        lemma_decoder_block_length(
            spec_decoder_width(channels, i as nat) as usize,
            spec_decoder_width(channels, (i + 1) as nat) as usize,
            s,
            if depthwise { spec_decoder_width(channels, (i + 1) as nat) as usize } else { 1 },
            use_noise_block,
            frames * spec_product(pre),
        );
        assert(frames * spec_product(pre) * s == frames * spec_product(rates)) by (nonlinear_arith)
            requires
                spec_product(rates) == spec_product(pre) * s,
        ;
        assert(frames * spec_product(rates) >= 0) by (nonlinear_arith)
            requires
                frames * spec_product(pre) >= 0,
                spec_product(rates) == spec_product(pre) * s,
                s >= 1,
                frames >= 0,
        ;
    } else {
        assert(frames * spec_product(rates) == frames);
    }
}

/// The encoder turns audio whose length is `frames` times the product of its strides
/// into `frames` latent frames, and every residual unit on the way keeps the frames
/// it gets (the encoder's own check on them never fails).
pub proof fn lemma_encoder_length(d_model: usize, latent_dim: usize, strides: Seq<usize>, depthwise: bool, exact: bool, frames: int)
    requires
        frames >= 1,
        forall|i: int| 0 <= i < strides.len() ==> strides[i] >= (if exact { 1int } else { 2int }) && 2 * strides[i] <= usize::MAX,
    ensures
        spec_encoder(d_model, latent_dim, strides, depthwise, exact).out_len(frames * spec_product(strides)) == frames,
        spec_encoder_units_keep(spec_encoder(d_model, latent_dim, strides, depthwise, exact).blocks, frames * spec_product(strides)),
{
    let e = spec_encoder(d_model, latent_dim, strides, depthwise, exact);
    lemma_encoder_blocks_length(d_model, strides, depthwise, exact, frames);
    let len = frames * spec_product(strides);
    let ic = e.input_conv;
    assert(ic.dilation * (ic.kernel_size - 1) == ic.left_pad) by (nonlinear_arith)
        requires
            ic.dilation == 1,
            ic.kernel_size == 7,
            ic.left_pad == 6,
    ;
    lemma_conv_keeps_length(ic, len);
    let mu = e.fc_mu;
    assert(mu.dilation * (mu.kernel_size - 1) == mu.left_pad) by (nonlinear_arith)
        requires
            mu.dilation == 1,
            mu.kernel_size == 3,
            mu.left_pad == 2,
    ;
    lemma_conv_keeps_length(mu, frames);
}

/// The decoder turns `frames` latent frames into `frames` times the product of its
/// rates audio frames.
pub proof fn lemma_decoder_length(
    input_channel: usize,
    channels: usize,
    rates: Seq<usize>,
    depthwise: bool,
    d_out: usize,
    use_noise_block: bool,
    final_channels: usize,
    frames: int,
)
    requires
        frames >= 0,
        forall|i: int| 0 <= i < rates.len() ==> rates[i] >= 1 && 2 * rates[i] <= usize::MAX,
    ensures
        spec_decoder(input_channel, channels, rates, depthwise, d_out, use_noise_block, final_channels).out_len(frames)
            == frames * spec_product(rates),
        spec_decoder_rest_keep(spec_decoder(input_channel, channels, rates, depthwise, d_out, use_noise_block, final_channels).blocks, frames),
{
    let d = spec_decoder(input_channel, channels, rates, depthwise, d_out, use_noise_block, final_channels);
    let convs = d.input_convs;
    let c0 = convs[0];
    assert(c0.dilation * (c0.kernel_size - 1) == c0.left_pad) by (nonlinear_arith)
        requires
            c0.dilation == 1,
            c0.kernel_size == 7 || c0.kernel_size == 1,
            c0.kernel_size == 7 ==> c0.left_pad == 6,
            c0.kernel_size == 1 ==> c0.left_pad == 0,
    ;
    lemma_conv_keeps_length(c0, frames);
    if depthwise {
        let c1 = convs[1];
        assert(c1.dilation * (c1.kernel_size - 1) == c1.left_pad) by (nonlinear_arith)
            requires
                c1.dilation == 1,
                c1.kernel_size == 1,
                c1.left_pad == 0,
        ;
        lemma_conv_keeps_length(c1, frames);
        let first = convs.drop_last();
        assert(first.drop_last() =~= Seq::<ConvLayer>::empty());
        assert(spec_convs_len(first.drop_last(), frames) == frames);
        assert(first.last() == c0);
        assert(spec_convs_len(first, frames) == c0.out_len(frames));
        assert(convs.last() == c1);
    } else {
        assert(convs.drop_last() =~= Seq::<ConvLayer>::empty());
        assert(spec_convs_len(convs.drop_last(), frames) == frames);
        assert(convs.last() == c0);
    }
    assert(spec_convs_len(convs, frames) == frames);
    lemma_decoder_blocks_length(channels, rates, depthwise, use_noise_block, frames);
    let oc = d.output_conv;
    assert(oc.dilation * (oc.kernel_size - 1) == oc.left_pad) by (nonlinear_arith)
        requires
            oc.dilation == 1,
            oc.kernel_size == 7,
            oc.left_pad == 6,
    ;
    lemma_conv_keeps_length(oc, frames * spec_product(rates));
}

// ---------------------------------------------------------------------------
// How the channel counts chain
// ---------------------------------------------------------------------------

impl EncoderLayoutView {
    /// Channels out of the last layer before the heads.
    pub open spec fn body_channels(self) -> usize {
        if self.blocks.len() == 0 {
            self.input_conv.channels_out
        } else {
            self.blocks.last().conv.channels_out
        }
    }

    /// Each layer takes as many channels as the layer before it gives.
    pub open spec fn chains(self) -> bool {
        &&& self.blocks.len() > 0 ==> self.blocks[0].snake_channels == self.input_conv.channels_out
        &&& forall|i: int| 0 <= i < self.blocks.len() ==> {
            let b = #[trigger] self.blocks[i];
            &&& b.unit_d1.channels == b.snake_channels && b.unit_d1.conv.channels_in == b.snake_channels
            &&& b.unit_d3.channels == b.snake_channels && b.unit_d9.channels == b.snake_channels
            &&& b.conv.channels_in == b.snake_channels
        }
        &&& forall|i: int| 0 <= i < self.blocks.len() - 1 ==> #[trigger] self.blocks[i + 1].snake_channels == self.blocks[i].conv.channels_out
        &&& self.fc_mu.channels_in == self.body_channels()
        &&& self.fc_logvar.channels_in == self.body_channels()
    }
}

impl DecoderLayoutView {
    /// Each layer takes as many channels as the layer before it gives.
    pub open spec fn chains(self) -> bool {
        &&& forall|i: int| 0 <= i < self.input_convs.len() - 1 ==> #[trigger] self.input_convs[i + 1].channels_in == self.input_convs[i].channels_out
        &&& self.blocks.len() > 0 ==> self.blocks[0].snake_channels == self.input_convs.last().channels_out
        &&& forall|i: int| 0 <= i < self.blocks.len() ==> {
            let b = #[trigger] self.blocks[i];
            &&& b.upsample.channels_in == b.snake_channels
            &&& b.unit_d1.channels == b.upsample.channels_out && b.unit_d1.conv.channels_in == b.upsample.channels_out
            &&& b.unit_d3.channels == b.upsample.channels_out && b.unit_d9.channels == b.upsample.channels_out
            &&& (b.noise matches Some(c) ==> c.channels_in == b.upsample.channels_out)
        }
        &&& forall|i: int| 0 <= i < self.blocks.len() - 1 ==> #[trigger] self.blocks[i + 1].snake_channels == self.blocks[i].upsample.channels_out
        &&& self.blocks.len() > 0 ==> self.final_channels == self.blocks.last().upsample.channels_out
        &&& self.output_conv.channels_in == self.final_channels
    }
}

/// `2^i <= 2^j` for `i <= j`.
proof fn lemma_pow2_monotone(i: nat, j: nat)
    requires
        i <= j,
    ensures
        1 <= spec_pow2(i) <= spec_pow2(j),
    decreases j,
{
    if j > 0 {
        if i == j {
            lemma_pow2_monotone(0, (j - 1) as nat);
        } else {
            lemma_pow2_monotone(i, (j - 1) as nat);
        }
    }
}

/// The encoder's layers chain, as long as its widest layer fits.
pub proof fn lemma_encoder_chains(d_model: usize, latent_dim: usize, strides: Seq<usize>, depthwise: bool, exact: bool)
    requires
        spec_encoder_width(d_model, strides.len()) <= usize::MAX,
    ensures
        spec_encoder(d_model, latent_dim, strides, depthwise, exact).chains(),
{
    let e = spec_encoder(d_model, latent_dim, strides, depthwise, exact);
    let n = strides.len();
    assert forall|i: int| 0 <= i <= n implies 0 <= #[trigger] spec_encoder_width(d_model, i as nat) <= usize::MAX by {
        lemma_pow2_monotone(i as nat, n);
        assert(d_model * spec_pow2(i as nat) <= d_model * spec_pow2(n)) by (nonlinear_arith)
            requires
                spec_pow2(i as nat) <= spec_pow2(n),
        ;
        assert(0 <= d_model * spec_pow2(i as nat)) by (nonlinear_arith);
    }
    assert(spec_pow2(0) == 1);
    assert(spec_encoder_width(d_model, 0) == d_model);
    assert forall|i: int| 0 <= i < n - 1 implies #[trigger] e.blocks[i + 1].snake_channels == e.blocks[i].conv.channels_out by {
        assert(spec_encoder_width(d_model, (i + 1) as nat) <= usize::MAX);
    }
    if n > 0 {
        assert(e.blocks.last() == e.blocks[n - 1]);
    }
}

/// The decoder's layers chain when the final Snake runs over the channels that the
/// last block gives.
pub proof fn lemma_decoder_chains(
    input_channel: usize,
    channels: usize,
    rates: Seq<usize>,
    depthwise: bool,
    d_out: usize,
    use_noise_block: bool,
    final_channels: usize,
)
    requires
        rates.len() > 0 ==> final_channels == spec_decoder_width(channels, rates.len()),
    ensures
        spec_decoder(input_channel, channels, rates, depthwise, d_out, use_noise_block, final_channels).chains(),
{
    let d = spec_decoder(input_channel, channels, rates, depthwise, d_out, use_noise_block, final_channels);
    let n = rates.len();
    assert forall|i: int| 0 <= i <= n implies 0 <= #[trigger] spec_decoder_width(channels, i as nat) <= channels by {
        lemma_pow2_monotone(0, i as nat);
        vstd::arithmetic::div_mod::lemma_div_is_ordered_by_denominator(channels as int, 1, spec_pow2(i as nat) as int);
        vstd::arithmetic::div_mod::lemma_div_pos_is_pos(channels as int, spec_pow2(i as nat) as int);
    }
    assert(spec_pow2(0) == 1);
    assert(spec_decoder_width(channels, 0) == channels);
    assert forall|i: int| 0 <= i < n - 1 implies #[trigger] d.blocks[i + 1].snake_channels == d.blocks[i].upsample.channels_out by {
        assert(0 <= spec_decoder_width(channels, (i + 1) as nat) <= channels);
    }
    if n > 0 {
        assert(d.blocks.last() == d.blocks[n - 1]);
        assert(0 <= spec_decoder_width(channels, n as nat) <= channels);
    }
}

// ---------------------------------------------------------------------------
// Widths and products, step by step
// ---------------------------------------------------------------------------

/// Each encoder block doubles the width, and the widths grow with the blocks.
pub proof fn lemma_encoder_width_step(d_model: usize, i: nat, n: nat)
    requires
        i < n,
    ensures
        spec_encoder_width(d_model, i + 1) == 2 * spec_encoder_width(d_model, i),
        0 <= spec_encoder_width(d_model, i) <= spec_encoder_width(d_model, i + 1) <= spec_encoder_width(d_model, n),
{
    lemma_pow2_monotone(i + 1, n);
    assert(spec_pow2(i + 1) == 2 * spec_pow2(i));
    assert(d_model * spec_pow2(i + 1) == 2 * (d_model * spec_pow2(i))) by (nonlinear_arith)
        requires
            spec_pow2(i + 1) == 2 * spec_pow2(i),
    ;
    assert(d_model * spec_pow2(i + 1) <= d_model * spec_pow2(n)) by (nonlinear_arith)
        requires
            spec_pow2(i + 1) <= spec_pow2(n),
    ;
    assert(0 <= d_model * spec_pow2(i)) by (nonlinear_arith);
}

/// Each decoder block halves the width (rounding down).
pub proof fn lemma_decoder_width_step(channels: usize, i: nat)
    ensures
        spec_decoder_width(channels, i + 1) == spec_decoder_width(channels, i) / 2,
        0 <= spec_decoder_width(channels, i + 1) <= spec_decoder_width(channels, i) <= channels,
{
    lemma_pow2_monotone(0, i);
    assert(spec_pow2(0) == 1);
    assert(spec_pow2(i + 1) == spec_pow2(i) * 2);
    vstd::arithmetic::div_mod::lemma_div_denominator(channels as int, spec_pow2(i) as int, 2);
    vstd::arithmetic::div_mod::lemma_div_is_ordered_by_denominator(channels as int, 1, spec_pow2(i) as int);
    vstd::arithmetic::div_mod::lemma_div_pos_is_pos(channels as int, spec_pow2(i) as int);
}

/// Every prefix of `s` has a product that fits in a `usize`.
pub open spec fn spec_products_fit(s: Seq<usize>) -> bool {
    forall|k: int| 0 <= k <= s.len() ==> #[trigger] spec_product(s.take(k)) <= usize::MAX
}

/// The product of the numbers in `v`, multiplied from the first.
pub fn product_of(v: &[usize]) -> (r: usize)
    requires
        spec_products_fit(v@),
    ensures
        r == spec_product(v@),
{
    let mut acc: usize = 1;
    let mut i: usize = 0;
    assert(v@.take(0) =~= Seq::<usize>::empty());
    while i < v.len()
        invariant
            i <= v@.len(),
            spec_products_fit(v@),
            acc == spec_product(v@.take(i as int)),
        decreases v@.len() - i,
    {
        assert(v@.take(i as int + 1).drop_last() =~= v@.take(i as int));
        assert(spec_product(v@.take(i as int + 1)) <= usize::MAX);
        acc = acc * v[i];
        i += 1;
    }
    assert(v@.take(v@.len() as int) =~= v@);
    acc
}

/// Zero frames to append to `length` frames to reach a multiple of `multiple`.
pub fn right_pad_to_multiple(length: usize, multiple: usize) -> (r: usize)
    requires
        multiple > 0,
    ensures
        r == (multiple - length % multiple) % (multiple as int),
        r < multiple,
        (length + r) % (multiple as int) == 0,
{
    let rem = length % multiple;
    let q = length / multiple;
    assert(length == q * multiple + rem) by {
        vstd::arithmetic::div_mod::lemma_fundamental_div_mod(length as int, multiple as int);
        vstd::arithmetic::mul::lemma_mul_is_commutative(q as int, multiple as int);
    }
    if rem == 0 {
        proof {
            lemma_fundamental_div_mod_converse(multiple as int, multiple as int, 1, 0);
            lemma_fundamental_div_mod_converse(length as int, multiple as int, q as int, 0);
        }
        0
    } else {
        let r = multiple - rem;
        proof {
            lemma_fundamental_div_mod_converse(r as int, multiple as int, 0, r as int);
            assert(length + r == (q + 1) * multiple) by (nonlinear_arith)
                requires
                    length == q * multiple + rem,
                    r == multiple - rem,
            ;
            lemma_fundamental_div_mod_converse((length + r) as int, multiple as int, q + 1, 0);
        }
        r
    }
}

} // verus!
