use voxcpm_rs::voice_registry::{generate_voice_id, slugify, VoiceEntry, VoiceRegistry};

fn entry(id: &str) -> VoiceEntry {
    VoiceEntry {
        voice_id: id.to_string(),
        label: format!("label of {}", id),
        wav_path: format!("voices/{}.wav", id),
        transcript: "hello".to_string(),
        sample_rate: 48000,
        created_at: "2024-01-01T00:00:00+00:00".to_string(),
    }
}

fn registry(ids: &[&str]) -> VoiceRegistry {
    let mut r = VoiceRegistry::default();
    for id in ids {
        r.add_voice(entry(id));
    }
    r
}

#[test]
fn slugs() {
    assert_eq!(slugify("My Voice #1"), "my-voice-1");
    assert_eq!(slugify("  --Hello__World--  "), "hello-world");
    assert_eq!(slugify("Ünïcode"), "n-code");
    assert_eq!(slugify("***"), "voice");
    assert_eq!(slugify(""), "voice");
}

#[test]
fn slugify_is_idempotent() {
    for label in ["My Voice #1", "a--b", "voice", "X"] {
        let once = slugify(label);
        assert_eq!(slugify(&once), once);
    }
}

#[test]
fn lookups() {
    let r = registry(&["alice", "bob", "alice"]);
    assert!(r.contains_id("bob"));
    assert!(!r.contains_id("carol"));
    assert_eq!(r.default_voice().unwrap().voice_id, "alice");
    assert_eq!(r.get_voice("alice").unwrap().wav_path, "voices/alice.wav");
    assert!(r.get_voice("carol").is_none());
    assert!(VoiceRegistry::default().default_voice().is_none());
    assert!(VoiceRegistry::default().random_voice().is_none());
    let picked = r.random_voice().unwrap();
    assert!(r.contains_id(&picked.voice_id));
}

#[test]
fn read_after_add() {
    let mut r = registry(&["alice"]);
    let id = generate_voice_id("Alice", &r);
    let e = r.register_voice(id.clone(), "Alice".to_string(), "voices/x.wav".to_string(), "hi there".to_string(), 48000);
    assert_eq!(e.voice_id, id);
    assert_eq!(e.sample_rate, 48000);
    let found = r.get_voice(&id).unwrap();
    assert_eq!(found.transcript, "hi there");
    assert_eq!(found.created_at, e.created_at);
    assert_eq!(r.get_voice("alice").unwrap().label, "label of alice");
    assert_eq!(r.voices.len(), 2);
}

#[test]
fn voice_ids() {
    let r = registry(&["bob"]);
    assert_eq!(generate_voice_id("Alice Smith", &r), "alice-smith");
    let id = generate_voice_id("Bob", &r);
    assert!(id.starts_with("bob-"));
    assert_eq!(id.len(), "bob-".len() + 6);
    assert!(id["bob-".len()..].chars().all(|c| c.is_ascii_lowercase() || c.is_ascii_digit()));
    assert!(!r.contains_id(&id));
}
