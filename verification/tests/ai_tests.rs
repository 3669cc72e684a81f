use kanpe::ai::{
    action_config, build_context_from_session, build_recent_context, clamp_text,
    collect_self_speaker_tags, extract_json_object, format_caption_line, is_recap_noise_line,
    normalize_ai_output, normalize_recap_output, normalize_speaker_tag, sample_evenly,
    sanitize_plain_text, select_context_captions, speaker_role_label, strip_numeric_list_prefix,
    truncate_for_error, ActionKind, LlmProvider,
};
use kanpe::captions::{AiLogEntry, CaptionEntry, SessionData};
use kanpe::settings::AppSettings;

fn caption(source: &str, status: &str, text: &str) -> CaptionEntry {
    CaptionEntry {
        time: "09:30:00".to_string(),
        source: source.to_string(),
        status: status.to_string(),
        text: text.to_string(),
    }
}

fn session_with(captions: Vec<CaptionEntry>) -> SessionData {
    SessionData {
        id: "s1".to_string(),
        title: "t".to_string(),
        duration: "0:00".to_string(),
        time: "9:30am".to_string(),
        created_at: "2026-01-01T09:30:00+00:00".to_string(),
        is_active: true,
        captions,
        ai_logs: Vec::<AiLogEntry>::new(),
        summary: String::new(),
        participants: 0,
        ai_assists: 0,
        self_speaker_tags: Vec::new(),
    }
}

#[test]
fn sanitizer_strips_markdown_structure() {
    let raw = "# Title\n- item **bold**\n```\ncode here\n```\n1. numbered\n---\n> quoted";
    assert_eq!(sanitize_plain_text(raw), "Title\nitem bold\nnumbered\nquoted");
}

#[test]
fn sanitizer_collapses_white_space_and_drops_empty_lines() {
    assert_eq!(sanitize_plain_text("  a   b  \n\n\nc"), "a b\nc");
    assert_eq!(sanitize_plain_text(""), "");
}

#[test]
fn sanitizer_skips_code_blocks_until_the_closing_fence() {
    let raw = "before\n```rust\nlet x = 1;\n```\nafter";
    assert_eq!(sanitize_plain_text(raw), "before\nafter");
}

#[test]
fn bullet_and_quote_prefixes_are_stripped() {
    assert_eq!(sanitize_plain_text("• bullet point"), "bullet point");
    assert_eq!(sanitize_plain_text("* starred"), "starred");
    assert_eq!(sanitize_plain_text("#Header"), "Header");
    assert_eq!(sanitize_plain_text("## deep  heading"), "deep heading");
}

#[test]
fn numeric_list_prefixes_are_stripped() {
    assert_eq!(strip_numeric_list_prefix("12. item"), "item");
    assert_eq!(strip_numeric_list_prefix("3) item"), "item");
    assert_eq!(strip_numeric_list_prefix("2026 was a year"), "2026 was a year");
    assert_eq!(strip_numeric_list_prefix("1."), "1.");
    assert_eq!(strip_numeric_list_prefix("no digits"), "no digits");
}

#[test]
fn recap_output_merges_lines_and_drops_disclaimers() {
    let cleaned = "Line one\n\nThe transcription may contain errors\nLine two";
    assert_eq!(normalize_recap_output(cleaned, "en"), "Line one Line two");
    assert_eq!(normalize_recap_output("", "en"), "Could not generate a recap.");
    assert_eq!(normalize_recap_output("", "ja"), "要約を生成できませんでした。");
}

#[test]
fn noise_lines_are_detected_case_insensitively() {
    assert!(is_recap_noise_line("NOTE: transcription MAY be wrong"));
    assert!(is_recap_noise_line("音声認識の結果です"));
    assert!(!is_recap_noise_line("regular content"));
}

#[test]
fn empty_model_replies_become_a_message() {
    assert_eq!(
        normalize_ai_output(ActionKind::Freeform, "   \n  ", "en"),
        "Could not generate a response."
    );
    assert_eq!(
        normalize_ai_output(ActionKind::Freeform, "   \n  ", "ja"),
        "回答を生成できませんでした。"
    );
    assert_eq!(normalize_ai_output(ActionKind::Assist, "Say hello", "en"), "Say hello");
}

#[test]
fn recap_replies_are_merged_and_clipped() {
    let long_line = "word ".repeat(400);
    let out = normalize_ai_output(ActionKind::Recap, &long_line, "en");
    assert_eq!(out.chars().count(), 900);
    assert!(out.ends_with('…'));
}

#[test]
fn action_keys_select_their_tasks() {
    assert!(matches!(action_config(Some("recap")).kind, ActionKind::Recap));
    assert_eq!(action_config(Some("recap")).log_type, "recap");
    assert_eq!(action_config(Some("assist")).log_type, "next-speak");
    assert_eq!(action_config(Some("question")).log_type, "questions");
    assert_eq!(action_config(Some("action")).log_type, "followup");
    assert_eq!(action_config(Some("unknown")).log_type, "freeform");
    assert!(matches!(action_config(None).kind, ActionKind::Freeform));
}

#[test]
fn provider_labels_parse_case_insensitively() {
    assert!(matches!(LlmProvider::from_label(" OpenAI "), Ok(LlmProvider::OpenAi)));
    assert!(matches!(LlmProvider::from_label("gpt"), Ok(LlmProvider::OpenAi)));
    let err = LlmProvider::from_label("foo").unwrap_err();
    assert_eq!(err, "LLM_PROVIDER 'foo' は未対応です。'openai' を指定してください。");
}

#[test]
fn provider_names_and_models() {
    assert_eq!(LlmProvider::OpenAi.name(), "OpenAI");
    assert_eq!(LlmProvider::OpenAi.model(), "gpt-5-mini");
}

#[test]
fn error_bodies_are_truncated_at_five_hundred_characters() {
    let long = "x".repeat(501);
    let out = truncate_for_error(&long);
    assert_eq!(out.chars().count(), 503);
    assert!(out.ends_with("..."));
    assert_eq!(truncate_for_error("short"), "short");
}

#[test]
fn clamped_text_normalizes_then_clips() {
    assert_eq!(clamp_text("  a   b  ", 10), "a b");
    assert_eq!(clamp_text("abc def", 4), "abc…");
}

#[test]
fn speaker_tags_normalize_and_deduplicate() {
    assert_eq!(normalize_speaker_tag("  self "), "SELF");
    let mut settings = AppSettings::default();
    settings.self_speaker_tag = " me ".to_string();
    settings.self_speaker_tags =
        vec!["ME".to_string(), "you".to_string(), "  ".to_string(), "You".to_string()];
    assert_eq!(collect_self_speaker_tags(&settings), vec!["ME", "YOU"]);
}

#[test]
fn speaker_roles_match_normalized_tags() {
    let tags = vec!["MIC".to_string()];
    assert_eq!(speaker_role_label(" mic ", &tags), "SELF");
    assert_eq!(speaker_role_label("SYS", &tags), "OTHER");
    assert_eq!(speaker_role_label("MIC", &[]), "OTHER");
}

#[test]
fn caption_lines_carry_role_and_status() {
    let tags = vec!["MIC".to_string()];
    let line = format_caption_line(&caption("MIC", "final", "hello"), &tags);
    assert_eq!(line, "[09:30:00][source:MIC][role:SELF][status:final] hello");
}

#[test]
fn context_prefers_final_captions() {
    let session = session_with(vec![
        caption("MIC", "interim", "draft"),
        caption("MIC", "final", "kept"),
    ]);
    let chosen = select_context_captions(&session);
    assert_eq!(chosen.len(), 1);
    assert_eq!(chosen[0].text, "kept");
    let all_interim = session_with(vec![caption("MIC", "interim", "draft")]);
    assert_eq!(select_context_captions(&all_interim).len(), 1);
}

#[test]
fn captions_sample_evenly_across_the_list() {
    let captions: Vec<CaptionEntry> =
        (0..5).map(|i| caption("MIC", "final", &format!("c{}", i))).collect();
    let sampled = sample_evenly(&captions, 2);
    assert_eq!(sampled.len(), 2);
    assert_eq!(sampled[0].text, "c0");
    assert_eq!(sampled[1].text, "c2");
    assert_eq!(sample_evenly(&captions, 9).len(), 5);
}

#[test]
fn empty_sessions_get_a_placeholder_context() {
    let session = session_with(Vec::new());
    assert_eq!(build_recent_context(&session, 40, &[]), "No captions available yet.");
    assert_eq!(
        build_context_from_session(&session, ActionKind::Recap, &[]),
        "No captions available yet."
    );
}

#[test]
fn recent_context_lists_the_last_captions() {
    let session = session_with(vec![
        caption("MIC", "final", "one"),
        caption("SYS", "final", "two"),
        caption("MIC", "final", "three"),
    ]);
    let ctx = build_recent_context(&session, 2, &[]);
    assert!(!ctx.contains("one"));
    assert!(ctx.contains("two"));
    assert!(ctx.contains("three"));
}

#[test]
fn priority_context_has_both_sections() {
    let captions: Vec<CaptionEntry> =
        (0..60).map(|i| caption("MIC", "final", &format!("c{}", i))).collect();
    let session = session_with(captions);
    let ctx = build_context_from_session(&session, ActionKind::Recap, &[]);
    assert!(ctx.starts_with("Long-range context (low weight):"));
    assert!(ctx.contains("Recent context (high weight, prioritize this when summarizing):"));
    let action_ctx = build_context_from_session(&session, ActionKind::Action, &[]);
    assert!(action_ctx.starts_with("Whole-timeline context (high weight, primary for action extraction):"));
}

#[test]
fn json_objects_are_cut_out_of_prose() {
    assert_eq!(
        extract_json_object("Sure! {\"title\":\"t\"} hope that helps"),
        Some("{\"title\":\"t\"}".to_string())
    );
    assert_eq!(extract_json_object("no braces"), None);
    assert_eq!(extract_json_object("} backwards {"), None);
}
