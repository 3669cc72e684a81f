use kanpe::settings::{effective_stt_model, AppSettings};

#[test]
fn maps_legacy_deepgram_model_to_default_faster_whisper_model() {
    let mut settings = AppSettings::default();
    settings.stt_model = "nova-3".to_string();
    assert_eq!(effective_stt_model(&settings, None), "small");
}

#[test]
fn keeps_supported_faster_whisper_model() {
    let mut settings = AppSettings::default();
    settings.stt_model = "large-v3".to_string();
    assert_eq!(effective_stt_model(&settings, None), "large-v3");
}

#[test]
fn model_falls_back_to_environment_override() {
    let mut settings = AppSettings::default();
    settings.stt_model = "  ".to_string();
    assert_eq!(effective_stt_model(&settings, Some("medium")), "medium");
    assert_eq!(effective_stt_model(&settings, Some("  ")), "small");
    assert_eq!(effective_stt_model(&settings, None), "small");
}

#[test]
fn legacy_model_detection_ignores_case_and_underscores() {
    let mut settings = AppSettings::default();
    settings.stt_model = "Nova_2_Meeting".to_string();
    assert_eq!(effective_stt_model(&settings, None), "small");
}
