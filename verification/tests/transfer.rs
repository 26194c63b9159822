use voice_catalog::config::HFConfig;
use voice_catalog::errors::VoiceError;
use voice_catalog::hf::{File, TransferAction, VoiceManager, transfer_failure};

fn files_with_model() -> Vec<(String, File)> {
    vec![
        ("en/voice.onnx.json".to_string(), File { size_bytes: 4882 }),
        ("en/voice.onnx".to_string(), File { size_bytes: 63201294 }),
    ]
}

fn files_without_model() -> Vec<(String, File)> {
    vec![
        ("en/voice.tar.gz".to_string(), File { size_bytes: 10 }),
        ("en/voice.onnx.json".to_string(), File { size_bytes: 20 }),
    ]
}

#[test]
fn config_builds_the_documented_urls() {
    let cfg = HFConfig::new();
    assert_eq!(
        cfg.get_voices_url(),
        "https://huggingface.co/rhasspy/piper-voices/resolve/v1.0.0/voices.json"
    );
    assert_eq!(
        cfg.get_voice_url(&"en/voice.onnx".to_string()),
        "https://huggingface.co/rhasspy/piper-voices/resolve/main/en/voice.onnx"
    );
}

#[test]
fn download_plan_is_two_fetches_and_two_writes() {
    let cfg = HFConfig::new();
    let plan = VoiceManager::download_voice(&files_with_model(), &cfg, "/data/voices").unwrap();
    assert_eq!(plan.len(), 4);
    let model_url = "https://huggingface.co/rhasspy/piper-voices/resolve/main/en/voice.onnx";
    let dest = "/data/voices/voice.onnx";
    assert_eq!(plan[0], TransferAction::Fetch { url: model_url.to_string() });
    assert_eq!(plan[1], TransferAction::Write { path: dest.to_string() });
    assert_eq!(
        plan[2],
        TransferAction::Fetch { url: format!("{}.json", model_url) }
    );
    assert_eq!(plan[3], TransferAction::Write { path: dest.to_string() });
}

#[test]
fn download_without_model_entry_is_malformed_path() {
    let cfg = HFConfig::new();
    let r = VoiceManager::download_voice(&files_without_model(), &cfg, "/data/voices");
    assert!(matches!(r, Err(VoiceError::MalformedPath)));
}

#[test]
fn delete_removes_exactly_the_model_basename() {
    let plan = VoiceManager::delete_voice(&files_with_model(), "/data/voices").unwrap();
    assert_eq!(
        plan,
        TransferAction::Remove { path: "/data/voices/voice.onnx".to_string() }
    );
}

#[test]
fn delete_without_model_entry_is_malformed_path() {
    let r = VoiceManager::delete_voice(&files_without_model(), "/data/voices");
    assert!(matches!(r, Err(VoiceError::MalformedPath)));
}

#[test]
fn failed_fetch_is_a_network_error_and_failed_write_a_filesystem_one() {
    let fetch = TransferAction::Fetch { url: "u".to_string() };
    let write = TransferAction::Write { path: "p".to_string() };
    let remove = TransferAction::Remove { path: "p".to_string() };
    assert!(matches!(
        transfer_failure(&fetch, "timed out".to_string()),
        VoiceError::Network(m) if m == "timed out"
    ));
    assert!(matches!(
        transfer_failure(&write, "disk full".to_string()),
        VoiceError::Filesystem(m) if m == "disk full"
    ));
    assert!(matches!(
        transfer_failure(&remove, "not found".to_string()),
        VoiceError::Filesystem(m) if m == "not found"
    ));
}

#[test]
fn local_keys_collapse_model_and_config_files() {
    let names = vec![
        "voice.onnx.json".to_string(),
        "voice.onnx".to_string(),
        "plain".to_string(),
    ];
    let keys = VoiceManager::list_downloaded_voices(&names);
    assert_eq!(keys, vec!["voice".to_string(), "plain".to_string()]);
}

#[test]
fn local_key_is_the_part_before_the_first_dot() {
    assert_eq!(voice_catalog::strutil::local_key("voice.onnx.json"), "voice");
    assert_eq!(voice_catalog::strutil::local_key("voice.onnx"), "voice");
    assert_eq!(voice_catalog::strutil::local_key("voice"), "voice");
    assert_eq!(voice_catalog::strutil::local_key(".hidden"), "");
}

#[test]
fn decimal_sizes_survive_printing_and_parsing() {
    assert_eq!(voice_catalog::strutil::u64_to_string(0), "0");
    assert_eq!(voice_catalog::strutil::u64_to_string(63201294), "63201294");
    assert_eq!(voice_catalog::strutil::parse_u64("63201294"), Some(63201294));
    assert_eq!(voice_catalog::strutil::parse_u64(""), None);
    assert_eq!(voice_catalog::strutil::parse_u64("12x"), None);
    assert_eq!(
        voice_catalog::strutil::parse_u64("18446744073709551615"),
        Some(u64::MAX)
    );
    assert_eq!(voice_catalog::strutil::parse_u64("18446744073709551616"), None);
}

#[test]
fn the_first_model_entry_is_the_one_planned() {
    let files = vec![
        ("a/readme.txt".to_string(), File { size_bytes: 1 }),
        ("b/first.onnx".to_string(), File { size_bytes: 2 }),
        ("c/second.onnx".to_string(), File { size_bytes: 3 }),
    ];
    let plan = VoiceManager::delete_voice(&files, "d").unwrap();
    assert_eq!(plan, TransferAction::Remove { path: "d/first.onnx".to_string() });
}
