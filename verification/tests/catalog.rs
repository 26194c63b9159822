use voice_catalog::errors::VoiceError;
use voice_catalog::hf::VoiceManager;

fn manifest_text() -> String {
    let one = r#"{
        "name": "Amy",
        "key": "en_US-amy-low",
        "language": {
            "code": "en_US",
            "region": "US",
            "name_native": "English",
            "name_english": "English",
            "country_english": "United States"
        },
        "quality": "low",
        "files": {
            "en/en_US/amy/low/en_US-amy-low.onnx": {"size_bytes": 63201294},
            "en/en_US/amy/low/en_US-amy-low.onnx.json": {"size_bytes": 4882}
        }
    }"#;
    let two = r#"{
        "name": "Alba",
        "key": "en_GB-alba-medium",
        "language": {
            "code": "en_GB",
            "region": "GB",
            "name_native": "English",
            "name_english": "English",
            "country_english": "Great Britain"
        },
        "quality": "medium",
        "downloaded": true,
        "files": {
            "en/en_GB/alba/medium/en_GB-alba-medium.onnx": {"size_bytes": 63104526}
        }
    }"#;
    format!("{{\"en_US-amy-low\": {}, \"en_GB-alba-medium\": {}}}", one, two)
}

#[test]
fn downloaded_iff_locally_present_and_in_manifest() {
    let local = vec![
        "en_US-amy-low.onnx".to_string(),
        "en_US-amy-low.onnx.json".to_string(),
        "stray-voice.onnx".to_string(),
    ];
    let catalog = VoiceManager::list_all_avaliable_voices(Ok(manifest_text()), Ok(local)).unwrap();
    assert_eq!(catalog.len(), 2);
    let amy = catalog.iter().find(|e| e.0 == "en_US-amy-low").unwrap();
    let alba = catalog.iter().find(|e| e.0 == "en_GB-alba-medium").unwrap();
    assert!(amy.1.downloaded);
    assert!(!alba.1.downloaded);
    assert_eq!(amy.1.name, "Amy");
    assert_eq!(amy.1.language.code, "en_US");
    assert_eq!(amy.1.quality, "low");
    assert_eq!(amy.1.files.len(), 2);
}

#[test]
fn manifest_downloaded_field_is_ignored_on_input() {
    let catalog =
        VoiceManager::list_all_avaliable_voices(Ok(manifest_text()), Ok(vec![])).unwrap();
    for (_, v) in &catalog {
        assert!(!v.downloaded);
    }
}

#[test]
fn catalog_keys_come_out_sorted() {
    let text = r#"{
        "zz": {"name": "Z", "key": "zz", "quality": "low",
               "language": {"code": "c", "region": "r", "name_native": "n",
                            "name_english": "e", "country_english": "c"},
               "files": {"z/zz.onnx": {"size_bytes": 1}}},
        "aa": {"name": "A", "key": "aa", "quality": "low",
               "language": {"code": "c", "region": "r", "name_native": "n",
                            "name_english": "e", "country_english": "c"},
               "files": {"a/aa.onnx": {"size_bytes": 2}}}
    }"#;
    let catalog =
        VoiceManager::list_all_avaliable_voices(Ok(text.to_string()), Ok(vec![])).unwrap();
    assert_eq!(catalog[0].0, "aa");
    assert_eq!(catalog[1].0, "zz");
}

#[test]
fn fetch_failure_fails_the_whole_catalog() {
    let r = VoiceManager::list_all_avaliable_voices(
        Err("connection refused".to_string()),
        Ok(vec!["en_US-amy-low.onnx".to_string()]),
    );
    match r {
        Err(VoiceError::Network(m)) => assert_eq!(m, "connection refused"),
        _ => panic!("expected a network error"),
    }
}

#[test]
fn scan_failure_fails_the_whole_catalog() {
    let r = VoiceManager::list_all_avaliable_voices(
        Ok(manifest_text()),
        Err("no such directory".to_string()),
    );
    match r {
        Err(VoiceError::Filesystem(m)) => assert_eq!(m, "no such directory"),
        _ => panic!("expected a filesystem error"),
    }
}

#[test]
fn garbage_text_is_a_decode_error() {
    let r = VoiceManager::list_all_avaliable_voices(Ok("{not json".to_string()), Ok(vec![]));
    assert!(matches!(r, Err(VoiceError::Decode(_))));
}

#[test]
fn wrong_shape_is_a_decode_error_not_an_empty_catalog() {
    let r = VoiceManager::list_all_avaliable_voices(
        Ok(r#"{"v": {"name": 5}}"#.to_string()),
        Ok(vec![]),
    );
    assert!(matches!(r, Err(VoiceError::Decode(_))));
}

#[test]
fn missing_required_field_is_a_decode_error() {
    let text = r#"{"v": {"name": "V", "key": "v", "quality": "low",
        "language": {"code": "c", "region": "r", "name_native": "n",
                     "name_english": "e", "country_english": "c"}}}"#;
    let r = VoiceManager::list_all_avaliable_voices(Ok(text.to_string()), Ok(vec![]));
    assert!(matches!(r, Err(VoiceError::Decode(_))));
}

#[test]
fn fractional_or_negative_sizes_are_decode_errors() {
    for bad in ["12.5", "-3", "1e3"] {
        let text = format!(
            r#"{{"v": {{"name": "V", "key": "v", "quality": "low",
            "language": {{"code": "c", "region": "r", "name_native": "n",
                         "name_english": "e", "country_english": "c"}},
            "files": {{"v/v.onnx": {{"size_bytes": {}}}}}}}}}"#,
            bad
        );
        let r = VoiceManager::list_all_avaliable_voices(Ok(text), Ok(vec![]));
        assert!(matches!(r, Err(VoiceError::Decode(_))), "size {} must be rejected", bad);
    }
}

#[test]
fn empty_manifest_is_an_empty_catalog() {
    let catalog = VoiceManager::list_all_avaliable_voices(
        Ok("{}".to_string()),
        Ok(vec!["a.onnx".to_string()]),
    )
    .unwrap();
    assert!(catalog.is_empty());
}

#[test]
fn error_descriptions_carry_kind_and_detail() {
    assert_eq!(
        VoiceError::Network("boom".to_string()).describe(),
        "network error: boom"
    );
    assert_eq!(
        VoiceError::MalformedPath.describe(),
        "malformed path: no model file entry in the voice's file mapping"
    );
}

#[test]
fn unknown_extra_fields_are_ignored() {
    let text = r#"{"v": {"name": "V", "key": "v", "quality": "low", "aliases": ["w"],
        "language": {"code": "c", "region": "r", "name_native": "n",
                     "name_english": "e", "country_english": "c", "extra": 1},
        "files": {"v/v.onnx": {"size_bytes": 7, "md5_digest": "abc"}}}}"#;
    let catalog =
        VoiceManager::list_all_avaliable_voices(Ok(text.to_string()), Ok(vec![])).unwrap();
    assert_eq!(catalog.len(), 1);
    assert_eq!(catalog[0].1.files, vec![("v/v.onnx".to_string(),
        voice_catalog::hf::File { size_bytes: 7 })]);
}
