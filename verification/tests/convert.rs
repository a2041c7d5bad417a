use voxcpm_rs::convert::{
    build_key_remappings, config_compat_edits, norm_layer_counts, preprocess_config, push_decimal, ConfigEdit, ConfigError, ConfigSection,
    ConfigShape, ConfigValue,
};

fn keys(v: &[&str]) -> Vec<String> {
    v.iter().map(|s| s.to_string()).collect()
}

/// (section, kind, key, value) of an edit, for comparison.
fn describe(e: &ConfigEdit) -> (ConfigSection, &'static str, String, Option<ConfigValue>) {
    match e {
        ConfigEdit::Insert { section, key, value } => (*section, "insert", key.clone(), Some(*value)),
        ConfigEdit::Remove { section, key } => (*section, "remove", key.clone(), None),
        ConfigEdit::Move { section, from, to } => (*section, "move", format!("{}->{}", from, to), None),
    }
}

#[test]
fn decimals() {
    let mut s = "layers.".to_string();
    push_decimal(&mut s, 0);
    assert_eq!(s, "layers.0");
    let mut s = String::new();
    push_decimal(&mut s, 1207);
    assert_eq!(s, "1207");
}

#[test]
fn key_remappings() {
    let r = build_key_remappings(1, 0, 2, 0);
    assert_eq!(r.len(), 4 + 2 * 3);
    assert_eq!(r[0], ("base_lm.norm.weight".to_string(), "base_lm.norm.inner.gamma".to_string()));
    assert_eq!(
        r[3],
        ("feat_decoder.estimator.decoder.norm.weight".to_string(), "feat_decoder.estimator.decoder.norm.inner.gamma".to_string())
    );
    assert_eq!(
        r[4],
        ("base_lm.layers.0.input_layernorm.weight".to_string(), "base_lm.layers.0.input_layernorm.inner.gamma".to_string())
    );
    assert_eq!(r[5].0, "base_lm.layers.0.post_attention_layernorm.weight");
    assert_eq!(r[9].1, "feat_encoder.encoder.layers.1.post_attention_layernorm.inner.gamma");
    for (from, to) in &r {
        let stem = from.strip_suffix(".weight").unwrap();
        assert_eq!(to, &format!("{}.inner.gamma", stem));
    }
}

#[test]
fn config_edits_for_a_fresh_config() {
    let shape = ConfigShape {
        root_keys: keys(&["lm_config", "dit_config", "audio_vae_config"]),
        lm_keys: Some(keys(&["hidden_size", "rope_theta"])),
        dit_keys: Some(keys(&["mean_mode", "cfm_config"])),
        cfm_keys: Some(keys(&["inference_cfg_rate"])),
        audio_vae_keys: Some(keys(&["encoder_dim", "use_noise_block"])),
    };
    let edits: Vec<_> = config_compat_edits(&shape).iter().map(describe).collect();
    assert_eq!(
        edits,
        vec![
            (ConfigSection::Lm, "insert", "no_rope".to_string(), Some(ConfigValue::Bool(false))),
            (ConfigSection::Lm, "insert", "kv_channels".to_string(), Some(ConfigValue::Null)),
            (ConfigSection::Lm, "insert", "dim_model_base".to_string(), Some(ConfigValue::Integer(256))),
            (ConfigSection::Lm, "insert", "scale_depth".to_string(), Some(ConfigValue::FloatOne)),
            (ConfigSection::Root, "insert", "ref_audio_start_token".to_string(), Some(ConfigValue::Integer(103))),
            (ConfigSection::Root, "insert", "ref_audio_end_token".to_string(), Some(ConfigValue::Integer(104))),
            (ConfigSection::Dit, "move", "mean_mode->dit_mean_mode".to_string(), None),
            (ConfigSection::Cfm, "remove", "inference_cfg_rate".to_string(), None),
            (ConfigSection::AudioVae, "insert", "depthwise".to_string(), Some(ConfigValue::Bool(true))),
            (ConfigSection::AudioVae, "remove", "sr_bin_boundaries".to_string(), None),
            (ConfigSection::AudioVae, "remove", "out_sample_rate".to_string(), None),
            (ConfigSection::AudioVae, "remove", "cond_type".to_string(), None),
            (ConfigSection::AudioVae, "remove", "cond_dim".to_string(), None),
            (ConfigSection::AudioVae, "remove", "cond_out_layer".to_string(), None),
        ]
    );
}

#[test]
fn config_edits_for_a_complete_config() {
    let shape = ConfigShape {
        root_keys: keys(&["ref_audio_start_token", "ref_audio_end_token"]),
        lm_keys: Some(keys(&["no_rope", "kv_channels", "rope_theta", "dim_model_base", "scale_depth"])),
        dit_keys: Some(keys(&["dit_mean_mode"])),
        cfm_keys: None,
        audio_vae_keys: None,
    };
    assert!(config_compat_edits(&shape).is_empty());
    let shape = ConfigShape {
        root_keys: keys(&["ref_audio_start_token", "ref_audio_end_token"]),
        lm_keys: None,
        dit_keys: Some(keys(&[])),
        cfm_keys: None,
        audio_vae_keys: None,
    };
    let edits: Vec<_> = config_compat_edits(&shape).iter().map(describe).collect();
    assert_eq!(edits, vec![(ConfigSection::Dit, "insert", "dit_mean_mode".to_string(), Some(ConfigValue::Bool(false)))]);
}

fn apply(keys: &mut Vec<String>, section: ConfigSection, edits: &[ConfigEdit]) {
    for e in edits {
        match e {
            ConfigEdit::Insert { section: s, key, .. } if *s == section => {
                if !keys.contains(key) {
                    keys.push(key.clone());
                }
            }
            ConfigEdit::Remove { section: s, key } if *s == section => keys.retain(|k| k != key),
            ConfigEdit::Move { section: s, from, to } if *s == section => {
                if keys.contains(from) {
                    keys.retain(|k| k != from);
                    if !keys.contains(to) {
                        keys.push(to.clone());
                    }
                }
            }
            _ => {}
        }
    }
}

#[test]
fn second_pass_only_removes() {
    let mut shape = ConfigShape {
        root_keys: keys(&["lm_config"]),
        lm_keys: Some(keys(&["hidden_size"])),
        dit_keys: Some(keys(&["mean_mode"])),
        cfm_keys: Some(keys(&["inference_cfg_rate", "solver"])),
        audio_vae_keys: Some(keys(&["cond_type", "depthwise"])),
    };
    let first = config_compat_edits(&shape);
    apply(&mut shape.root_keys, ConfigSection::Root, &first);
    apply(shape.lm_keys.as_mut().unwrap(), ConfigSection::Lm, &first);
    apply(shape.dit_keys.as_mut().unwrap(), ConfigSection::Dit, &first);
    apply(shape.cfm_keys.as_mut().unwrap(), ConfigSection::Cfm, &first);
    apply(shape.audio_vae_keys.as_mut().unwrap(), ConfigSection::AudioVae, &first);
    assert_eq!(shape.dit_keys, Some(keys(&["dit_mean_mode"])));
    assert_eq!(shape.cfm_keys, Some(keys(&["solver"])));
    assert_eq!(shape.audio_vae_keys, Some(keys(&["depthwise", "use_noise_block"])));
    let second = config_compat_edits(&shape);
    assert!(!second.is_empty());
    assert!(second.iter().all(|e| matches!(e, ConfigEdit::Remove { .. })));
}

#[test]
fn preprocess_config_edits_the_document() {
    let raw = r#"{
        "lm_config": {"hidden_size": 1024, "rope_theta": 5000},
        "dit_config": {"hidden_dim": 512, "mean_mode": true, "cfm_config": {"sigma_min": 0.0, "inference_cfg_rate": 2.0}},
        "audio_vae_config": {"latent_dim": 64, "sr_bin_boundaries": [20000], "cond_type": "scale_bias", "depthwise": false},
        "patch_size": 4
    }"#;
    let v = preprocess_config(raw).unwrap();
    let lm = v["lm_config"].as_object().unwrap();
    assert_eq!(lm["no_rope"], serde_json::Value::Bool(false));
    assert!(lm["kv_channels"].is_null());
    assert_eq!(lm["rope_theta"].as_u64(), Some(5000));
    assert_eq!(lm["dim_model_base"].as_u64(), Some(256));
    assert_eq!(lm["scale_depth"].as_f64(), Some(1.0));
    assert_eq!(lm["hidden_size"].as_u64(), Some(1024));
    assert_eq!(v["ref_audio_start_token"].as_u64(), Some(103));
    assert_eq!(v["ref_audio_end_token"].as_u64(), Some(104));
    assert_eq!(v["patch_size"].as_u64(), Some(4));
    let dit = v["dit_config"].as_object().unwrap();
    assert!(!dit.contains_key("mean_mode"));
    assert_eq!(dit["dit_mean_mode"], serde_json::Value::Bool(true));
    let cfm = dit["cfm_config"].as_object().unwrap();
    assert!(!cfm.contains_key("inference_cfg_rate"));
    assert!(cfm.contains_key("sigma_min"));
    let av = v["audio_vae_config"].as_object().unwrap();
    assert_eq!(av["depthwise"], serde_json::Value::Bool(false));
    assert_eq!(av["use_noise_block"], serde_json::Value::Bool(false));
    assert!(!av.contains_key("sr_bin_boundaries") && !av.contains_key("cond_type"));
    assert_eq!(av["latent_dim"].as_u64(), Some(64));
}

#[test]
fn preprocess_config_settles_and_keeps_missing_sections_missing() {
    let v = preprocess_config(r#"{"dit_config": {}}"#).unwrap();
    assert_eq!(v["dit_config"]["dit_mean_mode"], serde_json::Value::Bool(false));
    assert!(v.get("lm_config").is_none() && v.get("audio_vae_config").is_none());
    let again = preprocess_config(&v.to_string()).unwrap();
    assert_eq!(again, v);
}

#[test]
fn preprocess_config_errors() {
    assert!(matches!(preprocess_config("not json"), Err(ConfigError::Parse(_))));
    assert!(matches!(preprocess_config("[1, 2]"), Err(ConfigError::NotAnObject)));
}

#[test]
fn preprocess_config_exact_document() {
    let raw = r#"{"lm_config":{"hidden_size":8},"dit_config":{"mean_mode":true,"cfm_config":{"inference_cfg_rate":2.0}},"audio_vae_config":{}}"#;
    let expected: serde_json::Value = serde_json::from_str(
        r#"{"lm_config":{"hidden_size":8,"no_rope":false,"kv_channels":null,"rope_theta":10000,"dim_model_base":256,"scale_depth":1.0},
            "dit_config":{"dit_mean_mode":true,"cfm_config":{}},
            "audio_vae_config":{"depthwise":true,"use_noise_block":false},
            "ref_audio_start_token":103,"ref_audio_end_token":104}"#,
    )
    .unwrap();
    let v = preprocess_config(raw).unwrap();
    assert_eq!(v, expected);
    assert_eq!(preprocess_config(&v.to_string()).unwrap(), expected);
}

#[test]
fn preprocess_config_keeps_present_defaults() {
    let raw = r#"{"lm_config":{"no_rope":true,"rope_theta":5},"ref_audio_start_token":1,"audio_vae_config":{"depthwise":false},"other":[1,2]}"#;
    let v = preprocess_config(raw).unwrap();
    assert_eq!(v["lm_config"]["no_rope"], serde_json::Value::Bool(true));
    assert_eq!(v["lm_config"]["rope_theta"].as_u64(), Some(5));
    assert_eq!(v["ref_audio_start_token"].as_u64(), Some(1));
    assert_eq!(v["ref_audio_end_token"].as_u64(), Some(104));
    assert_eq!(v["audio_vae_config"]["depthwise"], serde_json::Value::Bool(false));
    assert_eq!(v["other"], serde_json::from_str::<serde_json::Value>("[1,2]").unwrap());
}

#[test]
fn layer_counts_with_defaults() {
    let v: serde_json::Value = serde_json::from_str(
        r#"{"lm_config":{"num_hidden_layers":40},"residual_lm_num_layers":4,"dit_config":{"num_layers":"x"}}"#,
    )
    .unwrap();
    assert_eq!(norm_layer_counts(&v), (40, 4, 12, 12));
    assert_eq!(norm_layer_counts(&serde_json::from_str("{}").unwrap()), (28, 8, 12, 12));
}
