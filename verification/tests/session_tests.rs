use kanpe::devices::{pick_microphone, pick_system_audio, plan_capture_sources, PlannedAcquisition};
use kanpe::settings::{
    effective_chunk_ms, effective_stt_language, sessions_path, AppSettings, SttProvider,
};
use kanpe::stream::ErrorKind;
use kanpe::stt::{classify_startup, decode_stt_line, StartupObservation, SttOutputEvent};

#[test]
fn startup_timeout_is_a_backend_startup_failure() {
    let failure = classify_startup(StartupObservation::TimedOut).unwrap_err();
    assert_eq!(failure.kind, ErrorKind::BackendStartupFailure);
    assert_eq!(
        failure.message,
        "timed out waiting for faster-whisper helper initialization (180s)"
    );
}

#[test]
fn startup_outcomes_classify_exactly() {
    assert!(classify_startup(StartupObservation::Ready).is_ok());
    let failed = classify_startup(StartupObservation::Failed("no model".to_string())).unwrap_err();
    assert_eq!(failed.kind, ErrorKind::BackendStartupFailure);
    assert_eq!(failed.message, "faster-whisper helper initialization failed: no model");
    let exited = classify_startup(StartupObservation::HelperExited).unwrap_err();
    assert_eq!(
        exited.message,
        "faster-whisper helper terminated before initialization completed"
    );
}

#[test]
fn screen_capture_mode_with_microphone_creates_two_sources() {
    let sources = plan_capture_sources(Some(0), "screen_capture", None).unwrap();
    assert_eq!(sources.len(), 2);
    assert_eq!(sources[0].label, "MIC");
    assert_eq!(sources[1].label, "SYS");
    assert_eq!(sources[0].acquisition, PlannedAcquisition::Device(0));
    assert_eq!(sources[1].acquisition, PlannedAcquisition::ScreenCapture);
}

#[test]
fn a_session_without_any_source_is_rejected() {
    assert_eq!(plan_capture_sources(None, "", None).unwrap_err(), ErrorKind::NoInputSource);
}

#[test]
fn loopback_device_fills_the_system_audio_slot() {
    let sources = plan_capture_sources(Some(2), "", Some(5)).unwrap();
    assert_eq!(sources.len(), 2);
    assert_eq!(sources[1].acquisition, PlannedAcquisition::Device(5));
    let sys_only = plan_capture_sources(None, "Screen_Capture", None).unwrap();
    assert_eq!(sys_only.len(), 1);
    assert_eq!(sys_only[0].label, "SYS");
}

#[test]
fn microphone_selection_matches_configured_substring() {
    let names = vec!["Built-in Microphone".to_string(), "USB Audio Device".to_string()];
    assert_eq!(pick_microphone(&names, " USB "), Some(1));
    assert_eq!(pick_microphone(&names, "default"), None);
    assert_eq!(pick_microphone(&names, ""), None);
    assert_eq!(pick_microphone(&names, "bluetooth"), None);
}

#[test]
fn system_audio_selection_skips_the_microphone_and_finds_loopback() {
    let names = vec!["MacBook Microphone".to_string(), "BlackHole 2ch".to_string()];
    assert_eq!(pick_system_audio(&names, "MacBook Microphone", ""), Some(1));
    assert_eq!(pick_system_audio(&names, "BlackHole 2ch", ""), None);
    let configured = vec!["MacBook Microphone".to_string(), "My Mixer".to_string()];
    assert_eq!(pick_system_audio(&configured, "MacBook Microphone", "mixer"), Some(1));
    assert_eq!(pick_system_audio(&configured, "MacBook Microphone", "screen_capture"), None);
}

#[test]
fn transcript_lines_decode_from_json() {
    let line = "{\"type\":\"transcript\",\"text\":\" hello there \",\"status\":\"interim\",\"source\":\"MIC\"}";
    match decode_stt_line(line) {
        SttOutputEvent::Transcript { text, status, source } => {
            assert_eq!(text, "hello there");
            assert_eq!(status, "interim");
            assert_eq!(source, "MIC");
        },
        _ => panic!("expected a transcript event"),
    }
}

#[test]
fn transcript_defaults_fill_missing_fields() {
    let line = "{\"type\":\"transcript\",\"text\":\"hi\"}";
    match decode_stt_line(line) {
        SttOutputEvent::Transcript { text, status, source } => {
            assert_eq!(text, "hi");
            assert_eq!(status, "final");
            assert_eq!(source, "SPK");
        },
        _ => panic!("expected a transcript event"),
    }
}

#[test]
fn handshake_and_error_lines_decode() {
    assert!(matches!(decode_stt_line("{\"type\":\"ready\"}"), SttOutputEvent::Ready));
    match decode_stt_line("{\"type\":\"error\",\"message\":\"boom\"}") {
        SttOutputEvent::Error(m) => assert_eq!(m, "boom"),
        _ => panic!("expected an error event"),
    }
    match decode_stt_line("{\"type\":\"error\"}") {
        SttOutputEvent::Error(m) => assert_eq!(m, "unknown faster-whisper error"),
        _ => panic!("expected an error event"),
    }
}

#[test]
fn junk_lines_are_ignored() {
    assert!(matches!(decode_stt_line(""), SttOutputEvent::Ignored));
    assert!(matches!(decode_stt_line("   "), SttOutputEvent::Ignored));
    assert!(matches!(decode_stt_line("not json"), SttOutputEvent::Ignored));
    assert!(matches!(
        decode_stt_line("{\"type\":\"transcript\",\"text\":\"   \"}"),
        SttOutputEvent::Ignored
    ));
    assert!(matches!(
        decode_stt_line("{\"type\":\"heartbeat\"}"),
        SttOutputEvent::Ignored
    ));
}

#[test]
fn provider_selection_normalizes_the_label() {
    let defaults = AppSettings::default();
    assert!(matches!(SttProvider::from_settings(&defaults), Ok(SttProvider::FasterWhisper)));
    let mut spaced = AppSettings::default();
    spaced.stt_provider = " Faster_Whisper ".to_string();
    assert!(matches!(SttProvider::from_settings(&spaced), Ok(SttProvider::FasterWhisper)));
    let mut unknown = AppSettings::default();
    unknown.stt_provider = "deepgram".to_string();
    assert_eq!(
        SttProvider::from_settings(&unknown).unwrap_err(),
        "Unsupported STT provider 'deepgram'. Supported providers: faster-whisper"
    );
    assert_eq!(SttProvider::FasterWhisper.as_str(), "faster-whisper");
}

#[test]
fn chunk_duration_clamps_to_one_to_five_seconds() {
    let mut settings = AppSettings::default();
    assert_eq!(effective_chunk_ms(&settings), 1000);
    settings.utterance_end_ms = 500;
    assert_eq!(effective_chunk_ms(&settings), 1000);
    settings.utterance_end_ms = 3000;
    assert_eq!(effective_chunk_ms(&settings), 3000);
    settings.utterance_end_ms = 9000;
    assert_eq!(effective_chunk_ms(&settings), 5000);
}

#[test]
fn language_defaults_to_english() {
    let mut settings = AppSettings::default();
    settings.stt_language = "  ".to_string();
    assert_eq!(effective_stt_language(&settings), "en");
    settings.stt_language = " ja ".to_string();
    assert_eq!(effective_stt_language(&settings), "ja");
}

#[test]
fn store_paths_live_under_the_config_directory() {
    assert_eq!(
        AppSettings::settings_path("/home/u/.config"),
        "/home/u/.config/kanpe/settings.json"
    );
    assert_eq!(sessions_path("/home/u/.config"), "/home/u/.config/kanpe/sessions.json");
}

#[test]
fn settings_defaults_match_the_documented_values() {
    let s = AppSettings::default();
    assert!(!s.auto_start && s.start_on_login && s.notifications);
    assert_eq!(s.locale, "en");
    assert_eq!(s.mic_input, "default");
    assert_eq!(s.system_audio, "screen_capture");
    assert_eq!(s.stt_model, "nova-3");
    assert_eq!(s.endpointing, 300);
    assert_eq!(s.auto_delete, "30days");
    assert!(s.self_speaker_tags.is_empty());
}
