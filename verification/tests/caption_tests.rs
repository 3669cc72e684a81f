use kanpe::captions::{
    apply_caption, build_transcript_for_summary, clamp_context_preserving_tail,
    clamp_with_ellipsis, default_ai_log_role, estimate_participants, fallback_summary,
    fallback_title, format_duration, normalize_line_text, sample_evenly_strings, CaptionEntry,
};

fn caption(source: &str, status: &str, text: &str) -> CaptionEntry {
    CaptionEntry {
        time: "12:00:00".to_string(),
        source: source.to_string(),
        status: status.to_string(),
        text: text.to_string(),
    }
}

#[test]
fn interim_caption_replaces_trailing_interim() {
    let mut captions: Vec<CaptionEntry> = Vec::new();
    apply_caption(&mut captions, caption("MIC", "interim", "hel"));
    assert_eq!(captions.len(), 1);
    apply_caption(&mut captions, caption("MIC", "interim", "hello"));
    assert_eq!(captions.len(), 1);
    assert_eq!(captions[0].text, "hello");
}

#[test]
fn final_caption_appends_a_new_entry() {
    let mut captions = vec![caption("MIC", "final", "first")];
    apply_caption(&mut captions, caption("MIC", "final", "second"));
    assert_eq!(captions.len(), 2);
    assert_eq!(captions[1].text, "second");
}

#[test]
fn final_caption_confirms_a_trailing_interim_in_place() {
    let mut captions = vec![caption("MIC", "final", "first")];
    apply_caption(&mut captions, caption("MIC", "interim", "sec"));
    assert_eq!(captions.len(), 2);
    apply_caption(&mut captions, caption("MIC", "final", "second"));
    assert_eq!(captions.len(), 2);
    assert_eq!(captions[1].text, "second");
    assert_eq!(captions[1].status, "final");
}

#[test]
fn at_most_one_interim_caption_trails_the_list() {
    let mut captions: Vec<CaptionEntry> = Vec::new();
    for (status, text) in [
        ("interim", "a"),
        ("interim", "ab"),
        ("final", "ab."),
        ("interim", "c"),
        ("final", "cd."),
    ] {
        apply_caption(&mut captions, caption("MIC", status, text));
        let interim_count =
            captions.iter().filter(|c| c.status == "interim").count();
        assert!(interim_count <= 1);
        if interim_count == 1 {
            assert_eq!(captions.last().unwrap().status, "interim");
        }
    }
    assert_eq!(captions.len(), 2);
}

#[test]
fn durations_render_as_clock_text() {
    assert_eq!(format_duration(0), "0:00");
    assert_eq!(format_duration(61), "1:01");
    assert_eq!(format_duration(3599), "59:59");
    assert_eq!(format_duration(3661), "1:01:01");
    assert_eq!(format_duration(-5), "0:00");
}

#[test]
fn participants_count_distinct_nonempty_sources() {
    let captions = vec![
        caption("MIC", "final", "a"),
        caption("SYS", "final", "b"),
        caption("MIC", "final", "c"),
        caption(" SYS ", "final", "d"),
        caption("  ", "final", "e"),
    ];
    assert_eq!(estimate_participants(&captions), 2);
    assert_eq!(estimate_participants(&[]), 0);
}

#[test]
fn fallback_title_uses_first_nonempty_text() {
    let captions = vec![caption("MIC", "final", "   "), caption("SYS", "final", " Budget   review ")];
    assert_eq!(fallback_title(&captions, "en"), "Budget review");
    assert_eq!(fallback_title(&[], "en"), "Untitled session");
    assert_eq!(fallback_title(&[], "ja"), "Untitled session");
}

#[test]
fn fallback_title_is_clipped_with_an_ellipsis() {
    let long = "x".repeat(60);
    let captions = vec![caption("MIC", "final", &long)];
    let title = fallback_title(&captions, "en");
    assert_eq!(title.chars().count(), 42);
    assert!(title.ends_with('…'));
}

#[test]
fn fallback_summary_merges_caption_texts() {
    let captions = vec![caption("MIC", "final", " one "), caption("SYS", "final", "two")];
    assert_eq!(fallback_summary(&captions, "en"), "one two");
    assert_eq!(fallback_summary(&[], "en"), "Summary could not be generated.");
    assert_eq!(fallback_summary(&[], "ja"), "要約を生成できませんでした。");
}

#[test]
fn transcript_prefers_final_captions() {
    let captions = vec![
        caption("MIC", "final", " hello "),
        caption("SYS", "interim", "draft"),
        caption("SYS", "final", "world"),
    ];
    assert_eq!(
        build_transcript_for_summary(&captions),
        "[12:00:00][MIC] hello\n[12:00:00][SYS] world"
    );
}

#[test]
fn transcript_uses_all_captions_when_none_is_final() {
    let captions = vec![caption("MIC", "interim", "draft")];
    assert_eq!(build_transcript_for_summary(&captions), "[12:00:00][MIC] draft");
    assert_eq!(build_transcript_for_summary(&[]), "");
}

#[test]
fn long_transcripts_sample_the_timeline_and_keep_the_recent_tail() {
    let captions: Vec<CaptionEntry> =
        (0..300).map(|i| caption("MIC", "final", &format!("line{}", i))).collect();
    let transcript = build_transcript_for_summary(&captions);
    assert!(transcript.starts_with("Whole timeline sample (chronological):\n"));
    assert!(transcript.contains("Recent segment (verbatim, high priority):\n"));
    assert!(transcript.contains("line299"));
    assert!(transcript.contains("line0"));
}

#[test]
fn evenly_sampled_strings_pick_spread_indices() {
    let lines: Vec<String> = (0..5).map(|i| format!("l{}", i)).collect();
    assert_eq!(sample_evenly_strings(&lines, 2), vec!["l0", "l2"]);
    assert_eq!(sample_evenly_strings(&lines, 9), lines);
    assert!(sample_evenly_strings(&lines, 0).is_empty());
    assert!(sample_evenly_strings(&[], 3).is_empty());
}

#[test]
fn over_long_context_keeps_head_and_tail_around_a_marker() {
    let value = "a".repeat(70) + &"b".repeat(80);
    let clipped = clamp_context_preserving_tail(&value, 100);
    let head_len = 100 * 2 / 5;
    let tail_len = 100 - head_len - 32;
    assert!(clipped.starts_with(&"a".repeat(head_len)));
    assert!(clipped.contains("[... omitted for length ...]"));
    assert!(clipped.ends_with(&"b".repeat(tail_len)));
    assert_eq!(clamp_context_preserving_tail("short", 100), "short");
}

#[test]
fn line_text_normalizes_white_space() {
    assert_eq!(normalize_line_text("  a \n\t b  "), "a b");
    assert_eq!(normalize_line_text(""), "");
    assert_eq!(normalize_line_text("\u{3000}日本語\u{3000}テスト\u{3000}"), "日本語 テスト");
}

#[test]
fn clipping_trims_before_adding_the_ellipsis() {
    assert_eq!(clamp_with_ellipsis(" abcdef ", 4), "abc…");
    assert_eq!(clamp_with_ellipsis(" abc ", 4), "abc");
    assert_eq!(clamp_with_ellipsis("ab cdef", 4), "ab…");
}

#[test]
fn ai_log_role_defaults_to_assistant() {
    assert_eq!(default_ai_log_role(), "assistant");
}
