use voice_catalog::hf::{File, Language, Voice};
use voice_catalog::manifest::{voice_from_json, voice_to_json};

fn sample_voice(downloaded: bool) -> Voice {
    Voice {
        name: "Amy".to_string(),
        key: "en_US-amy-low".to_string(),
        language: Language {
            code: "en_US".to_string(),
            region: "US".to_string(),
            name_native: "English".to_string(),
            name_english: "English".to_string(),
            country_english: "United States".to_string(),
        },
        quality: "low".to_string(),
        downloaded,
        files: vec![
            ("en/en_US/amy/low/en_US-amy-low.onnx".to_string(), File { size_bytes: 63201294 }),
            ("en/en_US/amy/low/en_US-amy-low.onnx.json".to_string(), File { size_bytes: 4882 }),
        ],
    }
}

#[test]
fn encoded_voice_decodes_to_the_same_voice() {
    let v = sample_voice(false);
    let j = voice_to_json(&v);
    let w = voice_from_json(&j).unwrap();
    assert_eq!(w, v);
}

#[test]
fn downloaded_flag_is_recomputed_not_round_tripped() {
    let v = sample_voice(true);
    let j = voice_to_json(&v);
    let w = voice_from_json(&j).unwrap();
    assert!(!w.downloaded);
    assert_eq!(w.name, v.name);
    assert_eq!(w.key, v.key);
    assert_eq!(w.language, v.language);
    assert_eq!(w.quality, v.quality);
    assert_eq!(w.files, v.files);
}
