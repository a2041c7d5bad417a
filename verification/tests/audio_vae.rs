use voxcpm_rs::audio_vae_v2::{
    sr_bucket, cond_kind, AudioVaeConfigV2, CausalDecoderBlockV2Config, CausalDecoderV2Config, CausalEncoderBlockV2Config,
    CausalEncoderV2Config, CausalResidualUnitV2Config, CondKind, NoiseBlockV2Config, SampleRateConditionLayerConfig,
    Snake1dV2Config, WNCausalConv1dV2Config, WNCausalTransposeConv1dV2Config,
};
use voxcpm_rs::audiovae::{
    AudioVaeConfig, CausalDecoderBlockConfig, CausalDecoderConfig, CausalEncoderBlockConfig, CausalEncoderConfig,
    CausalResidualUnitConfig, NoiseBlockConfig, Snake1dConfig, WNCausalConv1dConfig, WNCausalTransposeConv1dConfig,
};
use voxcpm_rs::vae_layout::{product_of, right_pad_to_multiple, ConvLayer, TransposeConvLayer};

fn conv(ci: usize, co: usize, k: usize, stride: usize, dilation: usize, groups: usize, left_pad: usize, bias: bool) -> ConvLayer {
    ConvLayer { channels_in: ci, channels_out: co, kernel_size: k, stride, dilation, groups, left_pad, bias }
}

/// Frames out of a convolution, as the layout describes it.
fn conv_len(c: &ConvLayer, len: usize) -> usize {
    (len + c.left_pad - c.dilation * (c.kernel_size - 1) - 1) / c.stride + 1
}

fn transpose_len(t: &TransposeConvLayer, len: usize) -> usize {
    (len - 1) * t.stride + t.kernel_size - t.right_trim
}

#[test]
fn test_config_defaults() {
    let config = AudioVaeConfigV2::new();
    assert_eq!(config.sample_rate, 16000);
    assert_eq!(config.out_sample_rate, 48000);
    assert_eq!(config.encoder_rates, vec![2, 5, 8, 8]);
    assert_eq!(config.decoder_rates, vec![8, 6, 5, 2, 2, 2]);
    assert_eq!(config.encoder_dim, 128);
    assert_eq!(config.decoder_dim, 2048);
    assert_eq!(config.latent_dim, 64);
}

#[test]
fn test_vae_init_and_encode() {
    let config = AudioVaeConfigV2::new();
    let vae = config.layout();

    assert_eq!(vae.sample_rate, 16000);
    assert_eq!(vae.out_sample_rate, 48000);
    assert_eq!(vae.latent_dim, 64);
    assert_eq!(vae.hop_length, 640); // 2*5*8*8
    assert_eq!(vae.decode_chunk_size, 1920); // 8*6*5*2*2*2

    // A clip of 640 samples encodes to one latent frame of 64 channels.
    assert_eq!(vae.encoder.input_conv.channels_in, 1);
    assert_eq!(vae.encoder.fc_mu.channels_out, 64);
    let mut len = conv_len(&vae.encoder.input_conv, 640);
    for b in vae.encoder.blocks.iter() {
        len = conv_len(&b.conv, len);
    }
    assert_eq!(conv_len(&vae.encoder.fc_mu, len), 1);
}

#[test]
fn test_vae_decode() {
    let config = AudioVaeConfigV2::new();
    let vae = config.layout();

    // A latent of 64 channels decodes to one audio channel.
    assert_eq!(vae.decoder.stack.input_convs[0].channels_in, 64);
    assert_eq!(vae.decoder.stack.output_conv.channels_out, 1);
    // Ten latent frames give ten decode chunks.
    let mut len = 10;
    for c in vae.decoder.stack.input_convs.iter() {
        len = conv_len(c, len);
    }
    for b in vae.decoder.stack.blocks.iter() {
        len = transpose_len(&b.upsample, len);
    }
    assert_eq!(conv_len(&vae.decoder.stack.output_conv, len), 10 * 1920);
}

#[test]
fn test_encode_decode_roundtrip_shape() {
    let config = AudioVaeConfigV2::new();
    let vae = config.layout();
    let samples = 1280;
    let frames = (samples + right_pad_to_multiple(samples, vae.hop_length)) / vae.hop_length;
    assert_eq!(frames, 2);
    // Output should be roughly same length (padded to hop_length boundary)
    assert!(frames * vae.decode_chunk_size >= samples);
}

#[test]
fn v2_encoder_widths_double() {
    let e = CausalEncoderV2Config::new().layout();
    assert_eq!(e.input_conv, conv(1, 128, 7, 1, 1, 1, 6, true));
    let widths: Vec<(usize, usize)> = e.blocks.iter().map(|b| (b.snake_channels, b.conv.channels_out)).collect();
    assert_eq!(widths, vec![(128, 256), (256, 512), (512, 1024), (1024, 2048)]);
    let strides: Vec<usize> = e.blocks.iter().map(|b| b.conv.stride).collect();
    assert_eq!(strides, vec![2, 5, 8, 8]);
    // A stride-5 block pads by exactly 5 frames, a stride-8 one by 8.
    assert_eq!(e.blocks[1].conv, conv(256, 512, 10, 5, 1, 1, 5, true));
    assert_eq!(e.blocks[2].conv.left_pad, 8);
    assert_eq!(e.fc_mu, conv(2048, 64, 3, 1, 1, 1, 2, true));
    assert_eq!(e.fc_logvar, e.fc_mu);
}

#[test]
fn v2_decoder_widths_halve() {
    let d = CausalDecoderV2Config::new(64, 2048, vec![8, 6, 5, 2, 2, 2]).with_depthwise(true).layout();
    assert_eq!(d.stack.input_convs, vec![conv(64, 64, 7, 1, 1, 64, 6, true), conv(64, 2048, 1, 1, 1, 1, 0, true)]);
    let widths: Vec<(usize, usize)> =
        d.stack.blocks.iter().map(|b| (b.upsample.channels_in, b.upsample.channels_out)).collect();
    assert_eq!(widths, vec![(2048, 1024), (1024, 512), (512, 256), (256, 128), (128, 64), (64, 32)]);
    // Odd stride 5: trimmed by 2 * 3 - 1 = 5 frames.
    assert_eq!(d.stack.blocks[2].upsample.right_trim, 5);
    assert_eq!(d.stack.blocks[2].unit_d1.conv.groups, 256);
    assert_eq!(d.stack.final_channels, 32);
    assert_eq!(d.stack.output_conv, conv(32, 1, 7, 1, 1, 1, 6, true));
    assert!(d.sr_conditions.is_empty());
    assert!(d.sr_bin_boundaries.is_none());
}

#[test]
fn v2_decoder_with_sample_rate_conditioning() {
    let d = CausalDecoderV2Config::new(64, 256, vec![2, 2])
        .with_sr_bin_boundaries(Some(vec![20000, 30000, 40000]))
        .with_cond_type("concat".to_string())
        .with_cond_dim(16)
        .with_cond_out_layer(true)
        .layout();
    assert_eq!(d.sr_conditions.len(), 2);
    assert_eq!(d.sr_conditions[0].kind, CondKind::Concat);
    assert_eq!(d.sr_conditions[0].buckets, 4);
    assert_eq!(d.sr_conditions[0].table_width, 16);
    assert_eq!(d.sr_conditions[0].out_conv, Some(conv(256 + 16, 256, 1, 1, 1, 1, 0, true)));
    assert_eq!(d.sr_conditions[1].out_conv, Some(conv(128 + 16, 128, 1, 1, 1, 1, 0, true)));
    assert_eq!(d.sr_bin_boundaries, Some(vec![20000, 30000, 40000]));
}

#[test]
fn sample_rate_condition_kinds() {
    assert_eq!(cond_kind("scale_bias"), Some(CondKind::ScaleBias));
    assert_eq!(cond_kind("scale_bias_init"), Some(CondKind::ScaleBiasInit));
    assert_eq!(cond_kind("add"), Some(CondKind::Add));
    assert_eq!(cond_kind("concat"), Some(CondKind::Concat));
    assert_eq!(cond_kind("multiply"), None);
    let c = SampleRateConditionLayerConfig::new();
    assert_eq!((c.input_dim, c.sr_bin_buckets, c.cond_type.as_str(), c.cond_dim, c.out_layer), (16, 5, "scale_bias", 128, false));
    let l = c.clone().with_out_layer(true).layout();
    assert_eq!(l.table_width, 16);
    assert_eq!(l.out_conv, Some(conv(16, 16, 1, 1, 1, 1, 0, true)));
    let add = c.with_cond_type("add".to_string()).with_out_layer(true).layout();
    assert_eq!(add.kind, CondKind::Add);
    assert_eq!(add.out_conv, None);
    assert!(add.out_layer);
}

#[test]
fn v2_layers() {
    let c = WNCausalConv1dV2Config::new(4, 8, 3).with_causal_padding(2).with_causal_output_padding(1).with_stride(2);
    assert_eq!(c.layout(), conv(4, 8, 3, 2, 1, 1, 3, true));
    let t = WNCausalTransposeConv1dV2Config::new(8, 4, 6, 3, 3).with_bias(false).layout();
    assert_eq!((t.right_trim, t.bias), (3, false));
    assert_eq!(Snake1dV2Config::new(12).channels, 12);
    assert_eq!(NoiseBlockV2Config::new(5).layout(), conv(5, 5, 1, 1, 1, 1, 0, false));
    // kernel 5, dilation 3: padded by 2 * ((4 * 3) / 2) = 12.
    let r = CausalResidualUnitV2Config::new().with_kernel(5).with_dilation(3).with_dim(10).layout();
    assert_eq!(r.conv, conv(10, 10, 5, 1, 3, 1, 12, true));
    assert_eq!(r.conv_out, conv(10, 10, 1, 1, 1, 1, 0, true));
    let e = CausalEncoderBlockV2Config::new().with_input_dim(Some(3)).with_output_dim(16).with_stride(1).layout();
    assert_eq!(e.snake_channels, 3);
    assert_eq!(e.conv, conv(3, 16, 2, 1, 1, 1, 1, true));
    let d = CausalDecoderBlockV2Config::new().with_use_noise_block(true).with_stride(4).layout();
    assert_eq!(d.noise, Some(conv(8, 8, 1, 1, 1, 1, 0, false)));
    assert_eq!(d.upsample.right_trim, 4);
}

#[test]
fn v1_defaults_and_layout() {
    let config = AudioVaeConfig::new();
    assert_eq!(config.encoder_rates, vec![2, 3, 6, 7, 7]);
    assert_eq!(config.latent_dim, Some(64));
    assert_eq!(config.sample_rate, 44100);
    let vae = config.layout();
    assert_eq!(vae.hop_length, 2 * 3 * 6 * 7 * 7);
    assert_eq!(vae.chunk_size, vae.hop_length);
    assert_eq!(vae.latent_dim, 64);
    // Depthwise by default.
    assert_eq!(vae.decoder.input_convs.len(), 2);
    assert_eq!(vae.encoder.blocks[0].unit_d1.conv.groups, 64);
    // A stride-3 block pads by 2 * 2 = 4 frames.
    assert_eq!(vae.encoder.blocks[1].conv.left_pad, 4);
    // A whole number of hops encodes to one frame per hop.
    let mut len = conv_len(&vae.encoder.input_conv, 3 * vae.hop_length);
    for b in vae.encoder.blocks.iter() {
        len = conv_len(&b.conv, len);
    }
    assert_eq!(conv_len(&vae.encoder.fc_mu, len), 3);
}

#[test]
fn v1_latent_defaults_to_top_width() {
    let vae = AudioVaeConfig::new().with_latent_dim(None).with_depthwise(Some(false)).layout();
    assert_eq!(vae.latent_dim, 64 * 32);
    assert_eq!(vae.decoder.input_convs, vec![conv(2048, 2048, 7, 1, 1, 1, 6, true)]);
}

#[test]
fn v1_decoder_without_rates_has_empty_final_snake() {
    let d = CausalDecoderConfig::new(8, 32, vec![]).layout();
    assert_eq!(d.final_channels, 0);
    assert_eq!(d.output_conv.channels_in, 0);
    let d = CausalDecoderConfig::new(8, 32, vec![2, 3]).with_use_noise_block(true).layout();
    assert_eq!(d.final_channels, 8);
    assert_eq!(d.blocks[1].noise, Some(conv(8, 8, 1, 1, 1, 1, 0, false)));
    // Odd stride 3: trimmed by 2 * 2 - 1 = 3 frames.
    assert_eq!(d.blocks[1].upsample.right_trim, 3);
}

#[test]
fn v1_layers() {
    let c = WNCausalConv1dConfig::new(2, 4, 7).with_padding(3).with_groups(2).with_dilation(1).with_bias(false);
    assert_eq!(c.layout(), conv(2, 4, 7, 1, 1, 2, 6, false));
    let t = WNCausalTransposeConv1dConfig::new(4, 2, 10, 5, 3, 1).layout();
    assert_eq!(t.right_trim, 5);
    assert_eq!(Snake1dConfig::new(3).channels, 3);
    assert_eq!(NoiseBlockConfig::new(2).layout(), conv(2, 2, 1, 1, 1, 1, 0, false));
    // The padding is that of a 7-tap kernel whatever the kernel.
    let r = CausalResidualUnitConfig::new().with_kernel(5).with_dilation(3).layout();
    assert_eq!(r.conv, conv(16, 16, 5, 1, 3, 1, 18, true));
    let e = CausalEncoderBlockConfig::new().with_stride(1).layout();
    assert_eq!(e.conv, conv(8, 16, 2, 1, 1, 1, 2, true));
    let d = CausalDecoderBlockConfig::new().with_input_dim(32).with_output_dim(16).with_stride(2).with_groups(16).layout();
    assert_eq!(d.upsample.right_trim, 2);
    assert_eq!(d.unit_d9.conv.left_pad, 54);
    let enc = CausalEncoderConfig::new().with_strides(vec![2]).with_d_model(4).with_latent_dim(3).with_depthwise(true).layout();
    assert_eq!(enc.blocks.len(), 1);
    assert_eq!(enc.fc_mu, conv(8, 3, 3, 1, 1, 1, 2, true));
}

#[test]
fn products_and_padding() {
    assert_eq!(product_of(&[2, 5, 8, 8]), 640);
    assert_eq!(product_of(&[]), 1);
    assert_eq!(right_pad_to_multiple(1000, 640), 280);
    assert_eq!(right_pad_to_multiple(1280, 640), 0);
    assert_eq!(right_pad_to_multiple(0, 7), 0);
}

#[test]
fn sample_rate_buckets() {
    let b = [20000, 30000, 40000];
    assert_eq!(sr_bucket(16000, &b), 0);
    assert_eq!(sr_bucket(20000, &b), 0);
    assert_eq!(sr_bucket(24000, &b), 1);
    assert_eq!(sr_bucket(48000, &b), 3);
    assert_eq!(sr_bucket(48000, &[]), 0);
}

#[test]
fn sample_rate_buckets_rise_with_rate() {
    let b = [16000, 22050, 24000, 32000, 44100];
    let rates = [8000u32, 16000, 16001, 22050, 24000, 30000, 44100, 48000];
    let mut last = 0usize;
    for r in rates {
        let k = sr_bucket(r, &b);
        assert!(k >= last);
        assert!(k <= b.len());
        last = k;
    }
    assert_eq!(last, 5);
}
