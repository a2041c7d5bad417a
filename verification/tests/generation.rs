use voxcpm_rs::generation::{capped_max_len, generation_limits, should_retry, should_stop, GenerationLimits};
use voxcpm_rs::voxcpm::{voxcpm_layout, LmShape, LocalShape};

#[test]
fn limits_default() {
    assert_eq!(generation_limits(None, None, None), GenerationLimits { min_len: 2, max_len: 2000, inference_timesteps: 10 });
    assert_eq!(generation_limits(Some(5), Some(100), Some(4)), GenerationLimits { min_len: 5, max_len: 100, inference_timesteps: 4 });
}

#[test]
fn stopping() {
    assert!(!should_stop(2, 2, 1));
    assert!(should_stop(3, 2, 1));
    assert!(!should_stop(3, 2, 0));
    // Steps taken for a stop head that fires from the start: min_len + 2.
    let mut steps = 0;
    for i in 0..100 {
        steps = i + 1;
        if should_stop(i, 2, 1) {
            break;
        }
    }
    assert_eq!(steps, 4);
}

#[test]
fn retrying() {
    assert!(should_retry(true, 0, 3, true));
    assert!(!should_retry(true, 3, 3, true));
    assert!(!should_retry(false, 0, 3, true));
    assert!(!should_retry(true, 0, 3, false));
}

#[test]
fn step_caps() {
    assert_eq!(capped_max_len(60, 2000), 70);
    assert_eq!(capped_max_len(1995, 2000), 2000);
    assert_eq!(capped_max_len(0, 5), 5);
}

#[test]
fn model_layout() {
    let lm = LmShape {
        hidden_size: 2048,
        intermediate_size: 6144,
        num_attention_heads: 16,
        num_hidden_layers: 28,
        kv_channels: Some(128),
        vocab_size: 73448,
        no_rope: false,
    };
    let enc = LocalShape { hidden_dim: 1024, ffn_dim: 4096, num_heads: 16, num_layers: 12, kv_channels: None };
    let dit = LocalShape { hidden_dim: 1024, ffn_dim: 4096, num_heads: 16, num_layers: 12, kv_channels: None };
    let l = voxcpm_layout(lm, 4, 64, 8, false, 512, 9, enc, dit, 8192);
    assert_eq!(l.residual_lm, LmShape { num_hidden_layers: 8, vocab_size: 0, ..lm });
    assert_eq!(l.encoder_lm.hidden_size, 1024);
    assert_eq!(l.encoder_lm.kv_channels, None);
    assert_eq!(l.encoder_lm.num_hidden_layers, 12);
    assert_eq!(l.decoder_lm.vocab_size, 0);
    assert_eq!((l.fsq.in_dim, l.fsq.out_dim, l.fsq.latent_dim, l.fsq.scale), (2048, 2048, 512, 9));
    assert_eq!((l.enc_to_lm_proj.in_dim, l.enc_to_lm_proj.out_dim), (1024, 2048));
    assert_eq!((l.fusion_concat_proj.in_dim, l.fusion_concat_proj.out_dim), (4096, 2048));
    assert_eq!((l.stop_head.out_dim, l.stop_head.bias), (2, false));
    assert_eq!((l.audio_start_token, l.audio_end_token), (101, 102));
}
