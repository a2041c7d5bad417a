use voxcpm_rs::prompt::{build_prompt_sequence, prompt_audio_padding};

#[test]
fn sequence_without_reference() {
    let s = build_prompt_sequence(&[5, 6, 7], 101, 0);
    assert_eq!(s.tokens, vec![5, 6, 7, 101]);
    assert_eq!(s.text_mask, vec![1, 1, 1, 1]);
    assert_eq!(s.audio_mask, vec![0, 0, 0, 0]);
}

#[test]
fn sequence_with_reference() {
    let s = build_prompt_sequence(&[5, 6], 101, 3);
    assert_eq!(s.tokens, vec![5, 6, 101, 0, 0, 0]);
    assert_eq!(s.text_mask, vec![1, 1, 1, 0, 0, 0]);
    assert_eq!(s.audio_mask, vec![0, 0, 0, 1, 1, 1]);
    for i in 0..s.tokens.len() {
        assert_eq!(s.text_mask[i] + s.audio_mask[i], 1);
    }
}

#[test]
fn reference_audio_padding() {
    // Patches of 4 latent frames of 640 samples: 2560 samples each.
    assert_eq!(prompt_audio_padding(2560, 4, 640), 0);
    assert_eq!(prompt_audio_padding(2561, 4, 640), 2559);
    assert_eq!(prompt_audio_padding(1000, 4, 640), 1560);
    assert_eq!(prompt_audio_padding(0, 4, 640), 0);
}
