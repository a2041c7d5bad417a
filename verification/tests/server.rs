use voxcpm_rs::device::{
    parse_cli_device_override, parse_device_override, resolve_model_path, select_cli_device, select_device,
    DeviceChoice, TtsDtype,
};
use voxcpm_rs::openai::{
    chatterbox_voices, check_voice_upload, find_voice_by_wav_name, models_response, plan_speech,
    select_voice, ApiError, AudioFormat,
};
use voxcpm_rs::paths::{file_name, join_path, resolve_path, stem_from_filename};
use voxcpm_rs::voice_registry::{VoiceEntry, VoiceRegistry};

fn entry(id: &str, wav: &str) -> VoiceEntry {
    VoiceEntry {
        voice_id: id.to_string(),
        label: id.to_string(),
        wav_path: wav.to_string(),
        transcript: "hello".to_string(),
        sample_rate: 48000,
        created_at: "2024-01-01T00:00:00+00:00".to_string(),
    }
}

fn registry() -> VoiceRegistry {
    let mut r = VoiceRegistry::default();
    r.add_voice(entry("alice", "voices/Alice.WAV"));
    r.add_voice(entry("bob", "voices/bob.wav"));
    r
}

fn err_of<T>(r: Result<T, ApiError>) -> ApiError {
    match r {
        Ok(_) => panic!("expected an error"),
        Err(e) => e,
    }
}

#[test]
fn api_errors() {
    let e = ApiError::bad_request("bad".to_string()).with_param("input".to_string());
    assert_eq!((e.status, e.error_type.as_str(), e.param.as_deref(), e.code.is_none()), (400, "invalid_request_error", Some("input"), true));
    let e = ApiError::not_implemented("later".to_string());
    assert_eq!((e.status, e.error_type.as_str(), e.message.as_str()), (501, "not_implemented", "later"));
    let e = ApiError::server_error("boom".to_string());
    assert_eq!((e.status, e.error_type.as_str()), (500, "server_error"));
}

#[test]
fn models_and_voice_lists() {
    let m = models_response();
    assert_eq!(m.object, "list");
    assert_eq!((m.data.len(), m.data[0].id.as_str(), m.data[0].object.as_str()), (1, "voxcpm", "model"));
    let v = chatterbox_voices(&registry());
    let pairs: Vec<(String, String)> = v.voices.iter().map(|c| (c.label.clone(), c.value.clone())).collect();
    assert_eq!(
        pairs,
        vec![
            ("Random".to_string(), "random".to_string()),
            ("alice".to_string(), "alice".to_string()),
            ("bob".to_string(), "bob".to_string()),
        ]
    );
}

#[test]
fn voice_selection() {
    let r = registry();
    assert_eq!(select_voice(&r, None).unwrap().voice_id, "alice");
    assert_eq!(select_voice(&r, Some("  ")).unwrap().voice_id, "alice");
    assert_eq!(select_voice(&r, Some(" bob ")).unwrap().voice_id, "bob");
    assert_eq!(select_voice(&r, Some("alice.wav")).unwrap().voice_id, "alice");
    assert_eq!(find_voice_by_wav_name(&r, "BOB.wav").unwrap().voice_id, "bob");
    assert!(find_voice_by_wav_name(&r, "carol.wav").is_none());
    let random = select_voice(&r, Some("random")).unwrap();
    assert!(r.contains_id(&random.voice_id));
    let e = err_of(select_voice(&r, Some("carol")));
    assert_eq!((e.message.as_str(), e.param.as_deref()), ("unknown voice_id", Some("voice")));
    let e = err_of(select_voice(&VoiceRegistry::default(), None));
    assert_eq!((e.message.as_str(), e.param), ("no voices available", None));
}

#[test]
fn speech_plans() {
    let r = registry();
    let p = plan_speech(&r, "Hello there. Bye!", None, None, Some("bob"), false).unwrap();
    assert_eq!((p.voice.voice_id.as_str(), p.format, p.stream), ("bob", AudioFormat::Wav, false));
    assert_eq!(p.chunks, vec!["Hello there.".to_string(), "Bye!".to_string()]);
    let p = plan_speech(&r, "Hello there. Bye!", Some("PCM"), Some(false), None, true).unwrap();
    assert_eq!(p.format, AudioFormat::Pcm);
    assert_eq!(p.chunks, vec!["Hello there. Bye!".to_string()]);
    assert!(plan_speech(&r, "Hi", Some("wav"), Some(true), None, false).unwrap().stream);

    let e = err_of(plan_speech(&r, "   ", None, None, None, false));
    assert_eq!((e.message.as_str(), e.param.as_deref()), ("input is required", Some("input")));
    let e = err_of(plan_speech(&r, "Hi", Some("mp3"), None, None, false));
    assert_eq!((e.message.as_str(), e.param.as_deref()), ("unsupported response_format", Some("response_format")));
    let e = err_of(plan_speech(&r, "Hi", Some("pcm"), Some(true), None, false));
    assert_eq!((e.message.as_str(), e.param.as_deref()), ("streaming requires wav", Some("response_format")));
    let e = err_of(plan_speech(&r, "Hi", None, None, Some("carol"), false));
    assert_eq!(e.message, "unknown voice_id");
}

#[test]
fn voice_uploads() {
    let f = check_voice_upload(true, Some("some words".to_string()), Some("  My Voice ".to_string()), None).unwrap();
    assert_eq!((f.transcript.as_str(), f.label.as_str()), ("some words", "My Voice"));
    let f = check_voice_upload(true, Some("t".to_string()), Some(" ".to_string()), Some("dir/alice.wav".to_string())).unwrap();
    assert_eq!(f.label, "alice");
    let f = check_voice_upload(true, Some("t".to_string()), None, None).unwrap();
    assert_eq!(f.label, "voice");
    let e = err_of(check_voice_upload(false, Some("t".to_string()), None, None));
    assert_eq!((e.message.as_str(), e.param.as_deref()), ("missing file", Some("file")));
    let e = err_of(check_voice_upload(true, Some("  ".to_string()), None, None));
    assert_eq!((e.message.as_str(), e.param.as_deref()), ("missing transcript", Some("transcript")));
    let e = err_of(check_voice_upload(true, None, None, None));
    assert_eq!(e.message, "missing transcript");
}

#[test]
fn paths() {
    assert_eq!(file_name("a/b/c.wav").as_deref(), Some("c.wav"));
    assert_eq!(file_name("a/b/").as_deref(), Some("b"));
    assert_eq!(file_name("a/.."), None);
    assert_eq!(file_name("/"), None);
    assert_eq!(stem_from_filename("dir/alice.wav").as_deref(), Some("alice"));
    assert_eq!(stem_from_filename(".hidden").as_deref(), Some(".hidden"));
    assert_eq!(stem_from_filename("a.tar.gz").as_deref(), Some("a.tar"));
    assert_eq!(join_path("base", "x.wav"), "base/x.wav");
    assert_eq!(join_path("base/", "x.wav"), "base/x.wav");
    assert_eq!(resolve_path("base", "/abs/x.wav"), "/abs/x.wav");
    assert_eq!(resolve_path("", "x.wav"), "x.wav");
}

#[test]
fn devices() {
    assert_eq!(parse_device_override(" CUDA "), DeviceChoice::Cuda(0));
    assert_eq!(parse_device_override("cuda:2"), DeviceChoice::Cuda(2));
    assert_eq!(parse_device_override("cuda:+3"), DeviceChoice::Cuda(3));
    assert_eq!(parse_device_override("cuda:x"), DeviceChoice::Cpu);
    assert_eq!(parse_device_override("rocm"), DeviceChoice::Cpu);
    assert_eq!(parse_cli_device_override("rocm"), DeviceChoice::Cuda(0));
    assert_eq!(parse_cli_device_override("HIP:1"), DeviceChoice::Cuda(1));
    assert_eq!(parse_cli_device_override("cpu"), DeviceChoice::Cpu);
    assert_eq!(select_device(None, true, 2), DeviceChoice::Cuda(0));
    assert_eq!(select_device(None, true, 0), DeviceChoice::Cpu);
    assert_eq!(select_device(Some("cpu"), true, 2), DeviceChoice::Cpu);
    assert_eq!(select_cli_device(Some("rocm:1"), false, 0), DeviceChoice::Cuda(1));
    assert_eq!(select_cli_device(None, false, 0), DeviceChoice::Cpu);
}

#[test]
fn model_paths() {
    assert_eq!(TtsDtype::Bf16.as_str(), "bf16");
    assert_eq!(TtsDtype::F16.as_str(), "f16");
    assert_eq!(resolve_model_path("burn-models", TtsDtype::Bf16), "burn-models/bf16");
    assert_eq!(resolve_model_path("burn-models/bf16", TtsDtype::Bf16), "burn-models/bf16");
    assert_eq!(resolve_model_path("burn-models/bf16", TtsDtype::F16), "burn-models/bf16/f16");
}
