//! The AI-assistant text layer: which task an action key selects, which
//! LLM provider a label names, normalization of model output to plain
//! text, and the conversation-context excerpts built from a session's
//! captions.

use vstd::prelude::*;

use crate::captions::{chosen_captions, CaptionEntry};
use crate::text::{
    contains_seq, contains_vec, join_with, lower_of, normalized_ws, starts_with_seq, str_eq,
    str_to_chars, str_to_lowercase, str_to_uppercase, trim_end_of, trim_of, trim_str, upper_of,
    views_of,
};

verus! {

/// Longest conversation context handed to the model, in characters.
pub const MAX_CONTEXT_CHARS: usize = 8000;

/// Longest recap kept from the model's output, in characters.
pub const MAX_RECAP_CHARS: usize = 900;

/// The assistant tasks an action key can select.
#[derive(Clone, Copy, PartialEq, Eq, Structural, Debug)]
pub enum ActionKind {
    Recap,
    Assist,
    Question,
    Action,
    Freeform,
}

/// The task an action key selects: its kind, the instruction handed to
/// the model, and the log type under which the reply is recorded.
pub struct ActionConfig {
    pub kind: ActionKind,
    pub task_instruction: &'static str,
    pub log_type: &'static str,
}

/// Selects the task configuration for an action key (already trimmed
/// and lower-cased); unknown or absent keys fall back to a free-form
/// answer.
pub fn action_config(action: Option<&str>) -> (r: ActionConfig)
    ensures
        ({
            let key = match action {
                Some(a) => a@,
                None => Seq::<char>::empty(),
            };
            &&& (key == "recap"@ ==> r.kind is Recap && r.log_type@ == "recap"@)
            &&& (key == "assist"@ ==> r.kind is Assist && r.log_type@ == "next-speak"@)
            &&& (key == "question"@ ==> r.kind is Question && r.log_type@ == "questions"@)
            &&& (key == "action"@ ==> r.kind is Action && r.log_type@ == "followup"@)
            &&& (key != "recap"@ && key != "assist"@ && key != "question"@ && key != "action"@
                ==> r.kind is Freeform && r.log_type@ == "freeform"@)
        }),
{
    proof {
        reveal_strlit("recap");
        reveal_strlit("assist");
        reveal_strlit("question");
        reveal_strlit("action");
        assert("recap"@.len() == 5);
        assert("assist"@.len() == 6);
        assert("question"@.len() == 8);
        assert("action"@.len() == 6);
        assert("assist"@[0] == 'a');
        assert("action"@[0] == 'a');
        assert("assist"@[1] == 's');
        assert("action"@[1] == 'c');
        assert("assist"@ != "action"@);
    }
    let key: &str = match action {
        Some(a) => a,
        None => "",
    };
    proof {
        reveal_strlit("");
    }
    if str_eq(key, "recap") {
        ActionConfig {
            kind: ActionKind::Recap,
            task_instruction:
                "Generate a concise recap in natural prose (summary style, plain text only).\nFocus rule: keep the whole conversation context, but weight recent discussion more heavily.\nOutput format:\nParagraph 1: overall topic and flow in 2-3 sentences.\nParagraph 2: recent focus, decisions, open issues, and next steps in 2-4 sentences.\nDo not output markdown, headings, bullet symbols, or disclaimer notes.",
            log_type: "recap",
        }
    } else if str_eq(key, "assist") {
        ActionConfig {
            kind: ActionKind::Assist,
            task_instruction:
                "Suggest what the speaker should say next in 1-3 concise lines.\nPrioritize very recent turns strongly. Use older turns only as background context.",
            log_type: "next-speak",
        }
    } else if str_eq(key, "question") {
        ActionConfig {
            kind: ActionKind::Question,
            task_instruction:
                "Propose 3-6 follow-up questions that naturally fit the current conversation.\nMix question types across: clarification, deeper understanding, decision making, alignment check, and next-step planning.\nDo not focus only on risks unless the recent context clearly demands it.\nPrioritize very recent turns strongly, while keeping whole-context consistency.\nOutput plain text with one question per line.",
            log_type: "questions",
        }
    } else if str_eq(key, "action") {
        ActionConfig {
            kind: ActionKind::Action,
            task_instruction:
                "List concrete action items with owner (if inferable) and due timing (if inferable).\nCapture action items from the whole conversation timeline (early, middle, recent), not only recent turns.",
            log_type: "followup",
        }
    } else {
        ActionConfig {
            kind: ActionKind::Freeform,
            task_instruction:
                "Answer the query directly based on the conversation context. Keep it concise.",
            log_type: "freeform",
        }
    }
}

/// The language-model providers the assistant can call.
#[derive(Clone, Copy, PartialEq, Eq, Structural, Debug)]
pub enum LlmProvider {
    OpenAi,
}

/// One request to the language model.
pub struct LlmRequest {
    pub system_prompt: String,
    pub user_prompt: String,
    pub max_output_tokens: Option<u32>,
}

impl LlmProvider {
    /// Selects the provider a label names, comparing the trimmed,
    /// lower-cased label; unknown labels are rejected with a message
    /// naming them.
    pub fn from_label(raw: &str) -> (r: Result<Self, String>)
        ensures
            ({
                let key = lower_of(trim_of(raw@));
                &&& ((key == "openai"@ || key == "gpt"@) <==> (r matches Ok(p) && p is OpenAi))
                &&& (r matches Err(m) ==> m@ == "LLM_PROVIDER '"@ + key
                    + "' は未対応です。'openai' を指定してください。"@)
            }),
    {
        let trimmed = trim_str(raw);
        let key = str_to_lowercase(trimmed.as_str());
        if str_eq(key.as_str(), "openai") || str_eq(key.as_str(), "gpt") {
            Ok(LlmProvider::OpenAi)
        } else {
            let mut m = String::from_str("LLM_PROVIDER '");
            m.append(key.as_str());
            m.append("' は未対応です。'openai' を指定してください。");
            Err(m)
        }
    }

    /// The provider's display name.
    pub fn name(&self) -> (r: &'static str)
        ensures
            r@ == "OpenAI"@,
    {
        match self {
            LlmProvider::OpenAi => "OpenAI",
        }
    }

    /// The model the provider is called with.
    pub fn model(&self) -> (r: &'static str)
        ensures
            r@ == "gpt-5-mini"@,
    {
        match self {
            LlmProvider::OpenAi => "gpt-5-mini",
        }
    }
}

/// An error body clipped for display: whole when at most 500 characters,
/// else the first 500 with a trailing marker.
pub open spec fn spec_truncate_for_error(v: Seq<char>) -> Seq<char> {
    if v.len() <= 500 {
        v
    } else {
        v.take(500) + "..."@
    }
}

/// Clips an error body to at most 500 characters plus a marker.
pub fn truncate_for_error(raw: &str) -> (r: String)
    ensures
        r@ == spec_truncate_for_error(raw@),
{
    let v = str_to_chars(raw);
    if v.len() <= 500 {
        return crate::text::chars_to_string(&v);
    }
    let head = crate::text::take_vec(&v, 500);
    let mut out = crate::text::chars_to_string(&head);
    out.append("...");
    out
}

/// A text clipped to `max` characters after white-space normalization:
/// whole when it fits, else the first `max - 1` characters trimmed at
/// the end plus an ellipsis.
pub open spec fn clamped_text(v: Seq<char>, max: nat) -> Seq<char> {
    let n = normalized_ws(v);
    if n.len() <= max {
        n
    } else {
        let keep = if max >= 1 {
            (max - 1) as nat
        } else {
            0
        };
        trim_end_of(n.take(keep as int)) + seq!['…']
    }
}

/// Normalizes white space and clips the text to at most `max`
/// characters, appending an ellipsis when clipping happened.
pub fn clamp_text(value: &str, max_chars: usize) -> (r: String)
    ensures
        r@ == clamped_text(value@, max_chars as nat),
{
    let v = str_to_chars(value);
    let n = crate::text::normalize_ws_vec(&v);
    if n.len() <= max_chars {
        crate::text::chars_to_string(&n)
    } else {
        let keep = if max_chars >= 1 {
            max_chars - 1
        } else {
            0
        };
        let head = crate::text::take_vec(&n, keep);
        let trimmed_head = crate::text::trim_end_vec(&head);
        let mut out = crate::text::chars_to_string(&trimmed_head);
        crate::text::push_char(&mut out, '…');
        proof {
            assert(head@ =~= normalized_ws(v@).take(keep as int));
            assert(out@ =~= clamped_text(value@, max_chars as nat));
        }
        out
    }
}

/// A recap line that only disclaims transcription quality and carries no
/// content.
pub open spec fn is_noise_line(l: Seq<char>) -> bool {
    let lower = lower_of(l);
    ||| contains_seq(lower, "音声認識"@)
    ||| contains_seq(lower, "不正確"@)
    ||| contains_seq(lower, "内容確認"@)
    ||| contains_seq(lower, "may be inaccurate"@)
    ||| contains_seq(lower, "transcription may"@)
    ||| contains_seq(lower, "please verify"@)
}

/// Whether a recap line is a quality disclaimer rather than content.
pub fn is_recap_noise_line(line: &str) -> (r: bool)
    ensures
        r == is_noise_line(line@),
{
    let lowered = str_to_lowercase(line);
    let lc = str_to_chars(lowered.as_str());
    let p1 = str_to_chars("音声認識");
    let p2 = str_to_chars("不正確");
    let p3 = str_to_chars("内容確認");
    let p4 = str_to_chars("may be inaccurate");
    let p5 = str_to_chars("transcription may");
    let p6 = str_to_chars("please verify");
    contains_vec(&lc, &p1) || contains_vec(&lc, &p2) || contains_vec(&lc, &p3) || contains_vec(
        &lc,
        &p4,
    ) || contains_vec(&lc, &p5) || contains_vec(&lc, &p6)
}

/// The normalized form of a speaker tag: trimmed and upper-cased.
pub open spec fn norm_tag(t: Seq<char>) -> Seq<char> {
    upper_of(trim_of(t))
}

/// Normalizes a speaker tag for comparison: trimmed, upper-cased.
pub fn normalize_speaker_tag(tag: &str) -> (r: String)
    ensures
        r@ == norm_tag(tag@),
{
    let trimmed = trim_str(tag);
    str_to_uppercase(trimmed.as_str())
}

/// Whether one of the strings holds exactly these characters.
fn string_vec_contains(v: &Vec<String>, s: &str) -> (r: bool)
    ensures
        r == views_of(v@).contains(s@),
{
    let n = v.len();
    let mut i: usize = 0;
    while i < n
        invariant
            n == v@.len(),
            i <= n,
            forall|j: int| 0 <= j < i ==> views_of(v@)[j] != s@,
        decreases n - i,
    {
        if str_eq(v[i].as_str(), s) {
            proof {
                assert(views_of(v@)[i as int] == s@);
            }
            return true;
        }
        i = i + 1;
    }
    proof {
        assert(forall|j: int| 0 <= j < n ==> views_of(v@)[j] != s@);
        if views_of(v@).contains(s@) {
            let j = choose|j: int| 0 <= j < views_of(v@).len() && views_of(v@)[j] == s@;
        }
    }
    false
}

/// The self-speaker tags after folding tag `i - 1` of the configured
/// list into the accumulator: empty normalizations and duplicates are
/// skipped.
pub open spec fn tags_prefix(init: Seq<Seq<char>>, rest: Seq<String>, i: int) -> Seq<Seq<char>>
    decreases i,
{
    if i <= 0 {
        init
    } else {
        let acc = tags_prefix(init, rest, i - 1);
        let nt = norm_tag(rest[i - 1]@);
        if nt.len() == 0 || acc.contains(nt) {
            acc
        } else {
            acc.push(nt)
        }
    }
}

/// The initial tag list: the single configured tag when it is nonempty.
pub open spec fn tags_init(head: Seq<char>) -> Seq<Seq<char>> {
    if trim_of(head).len() > 0 {
        seq![norm_tag(head)]
    } else {
        Seq::<Seq<char>>::empty()
    }
}

/// The normalized self-speaker tags a configuration names, duplicates
/// and blanks removed.
pub open spec fn spec_self_tags(head: Seq<char>, rest: Seq<String>) -> Seq<Seq<char>> {
    tags_prefix(tags_init(head), rest, rest.len() as int)
}

/// Collects the normalized self-speaker tags from the settings: the
/// single tag first, then the list, skipping blanks and duplicates.
pub fn collect_self_speaker_tags(settings: &crate::settings::AppSettings) -> (r: Vec<String>)
    ensures
        views_of(r@) == spec_self_tags(settings.self_speaker_tag@, settings.self_speaker_tags@),
{
    let mut tags: Vec<String> = Vec::new();
    let head_trimmed = trim_str(settings.self_speaker_tag.as_str());
    if head_trimmed.unicode_len() > 0 {
        tags.push(normalize_speaker_tag(settings.self_speaker_tag.as_str()));
    }
    proof {
        assert(views_of(tags@) =~~= tags_init(settings.self_speaker_tag@));
    }
    let n = settings.self_speaker_tags.len();
    let mut i: usize = 0;
    while i < n
        invariant
            n == settings.self_speaker_tags@.len(),
            i <= n,
            views_of(tags@) == tags_prefix(
                tags_init(settings.self_speaker_tag@),
                settings.self_speaker_tags@,
                i as int,
            ),
        decreases n - i,
    {
        let normalized = normalize_speaker_tag(settings.self_speaker_tags[i].as_str());
        let ghost before = views_of(tags@);
        if normalized.unicode_len() == 0 || string_vec_contains(&tags, normalized.as_str()) {
        } else {
            tags.push(normalized);
            proof {
                assert(views_of(tags@) =~~= before.push(
                    norm_tag(settings.self_speaker_tags@[i as int]@),
                ));
            }
        }
        i = i + 1;
    }
    tags
}

/// The source belongs to the user: some nonempty tag equals its
/// normalized form.
pub open spec fn is_self_source(tags: Seq<String>, source: Seq<char>) -> bool {
    exists|k: int|
        0 <= k < tags.len() && tags[k]@.len() > 0 && tags[k]@ == norm_tag(source)
}

/// Labels a caption source `SELF` when its normalized form matches one
/// of the nonempty self-speaker tags, `OTHER` otherwise.
pub fn speaker_role_label(source: &str, self_speaker_tags: &[String]) -> (r: &'static str)
    ensures
        r@ == "SELF"@ <==> is_self_source(self_speaker_tags@, source@),
        r@ == "SELF"@ || r@ == "OTHER"@,
{
    proof {
        reveal_strlit("SELF");
        reveal_strlit("OTHER");
        assert("SELF"@.len() == 4);
        assert("OTHER"@.len() == 5);
    }
    let normalized = normalize_speaker_tag(source);
    let n = self_speaker_tags.len();
    let mut i: usize = 0;
    while i < n
        invariant
            n == self_speaker_tags@.len(),
            normalized@ == norm_tag(source@),
            i <= n,
            forall|k: int|
                0 <= k < i ==> !(#[trigger] self_speaker_tags@[k]@.len() > 0
                    && self_speaker_tags@[k]@ == norm_tag(source@)),
        decreases n - i,
    {
        let tag = &self_speaker_tags[i];
        if tag.unicode_len() > 0 && str_eq(tag.as_str(), normalized.as_str()) {
            proof {
                assert(is_self_source(self_speaker_tags@, source@));
            }
            return "SELF";
        }
        i = i + 1;
    }
    proof {
        assert(!is_self_source(self_speaker_tags@, source@));
    }
    "OTHER"
}

/// One context line: time, source, role and status brackets, then the
/// text.
pub open spec fn caption_line(c: CaptionEntry, tags: Seq<String>) -> Seq<char> {
    let role: Seq<char> = if is_self_source(tags, c.source@) {
        "SELF"@
    } else {
        "OTHER"@
    };
    "["@ + c.time@ + "][source:"@ + c.source@ + "][role:"@ + role + "][status:"@ + c.status@
        + "] "@ + c.text@
}

/// Renders one caption as a context line with its speaker role.
pub fn format_caption_line(caption: &CaptionEntry, self_speaker_tags: &[String]) -> (r: String)
    ensures
        r@ == caption_line(*caption, self_speaker_tags@),
{
    let role = speaker_role_label(caption.source.as_str(), self_speaker_tags);
    let mut out = String::from_str("[");
    out.append(caption.time.as_str());
    out.append("][source:");
    out.append(caption.source.as_str());
    out.append("][role:");
    out.append(role);
    out.append("][status:");
    out.append(caption.status.as_str());
    out.append("] ");
    out.append(caption.text.as_str());
    out
}

/// The captions context is built from: confirmed ones, or all while none
/// is confirmed yet.
pub fn select_context_captions(session: &crate::captions::SessionData) -> (r: Vec<CaptionEntry>)
    ensures
        r@ == chosen_captions(session.captions@),
{
    let n = session.captions.len();
    let mut finals: Vec<CaptionEntry> = Vec::new();
    let mut i: usize = 0;
    proof {
        assert(session.captions@.skip(0) =~= session.captions@);
        assert(Seq::<CaptionEntry>::empty() + crate::captions::finals_of(session.captions@)
            =~= crate::captions::finals_of(session.captions@));
    }
    while i < n
        invariant
            n == session.captions@.len(),
            i <= n,
            crate::captions::finals_of(session.captions@) == finals@
                + crate::captions::finals_of(session.captions@.skip(i as int)),
        decreases n - i,
    {
        let ghost rest = session.captions@.skip(i as int);
        proof {
            assert(rest[0] == session.captions@[i as int]);
            assert(rest.drop_first() =~= session.captions@.skip(i + 1));
        }
        if str_eq(session.captions[i].status.as_str(), "final") {
            let ghost before = finals@;
            finals.push(session.captions[i].clone());
            proof {
                assert(finals@ =~= before + seq![session.captions@[i as int]]);
                assert(before + (seq![session.captions@[i as int]] + crate::captions::finals_of(
                    session.captions@.skip(i + 1),
                )) =~= finals@ + crate::captions::finals_of(session.captions@.skip(i + 1)));
            }
        }
        i = i + 1;
    }
    proof {
        assert(session.captions@.skip(n as int) =~= Seq::<CaptionEntry>::empty());
        assert(finals@ + Seq::<CaptionEntry>::empty() =~= finals@);
    }
    if finals.len() == 0 {
        let mut all: Vec<CaptionEntry> = Vec::new();
        let mut k: usize = 0;
        while k < n
            invariant
                n == session.captions@.len(),
                k <= n,
                all@ == session.captions@.take(k as int),
            decreases n - k,
        {
            all.push(session.captions[k].clone());
            proof {
                assert(all@ =~= session.captions@.take(k + 1));
            }
            k = k + 1;
        }
        proof {
            assert(all@ =~= session.captions@);
        }
        all
    } else {
        finals
    }
}

/// A horizontal-rule line, which carries no content.
pub open spec fn is_rule(t: Seq<char>) -> bool {
    t == "---"@ || t == "***"@ || t == "___"@
}

/// What one line contributes to sanitized output: trimmed, heading
/// marks and list prefixes stripped, numeric list numbering removed,
/// emphasis markers deleted, white space normalized; rule lines
/// contribute nothing.
pub open spec fn line_payload(l: Seq<char>) -> Seq<char> {
    let h = crate::text::drop_hashes(trim_of(l));
    if is_rule(h) {
        Seq::<char>::empty()
    } else {
        let p = crate::text::strip_prefix_ws(
            crate::text::strip_prefix_ws(
                crate::text::strip_prefix_ws(crate::text::strip_prefix_ws(h, "- "@), "* "@),
                "• "@,
            ),
            "> "@,
        );
        let q = crate::text::stripped_numeric_prefix(p);
        normalized_ws(
            crate::text::remove_all(
                crate::text::remove_all(crate::text::remove_all(q, "**"@), "__"@),
                "`"@,
            ),
        )
    }
}

/// One step of sanitization: a code-fence line toggles skipping, lines
/// inside a code block are dropped, and other lines contribute their
/// payload when it is nonempty.
pub open spec fn sanitize_step(st: (Seq<Seq<char>>, bool), l: Seq<char>) -> (Seq<Seq<char>>, bool) {
    if starts_with_seq(trim_of(l), "```"@) {
        (st.0, !st.1)
    } else if st.1 {
        st
    } else if line_payload(l).len() > 0 {
        (st.0.push(line_payload(l)), st.1)
    } else {
        st
    }
}

/// Sanitization state after the first `i` lines.
pub open spec fn sanitize_prefix(ls: Seq<Seq<char>>, i: int) -> (Seq<Seq<char>>, bool)
    decreases i,
{
    if i <= 0 {
        (Seq::<Seq<char>>::empty(), false)
    } else {
        sanitize_step(sanitize_prefix(ls, i - 1), ls[i - 1])
    }
}

/// Model output flattened to plain text: markdown markers removed, code
/// blocks dropped, each kept line normalized, lines joined by newlines.
pub open spec fn sanitized(raw: Seq<char>) -> Seq<char> {
    let ls = crate::text::lines_of(raw);
    join_with(sanitize_prefix(ls, ls.len() as int).0, "\n"@)
}

/// Strips markdown structure from model output: code blocks are
/// dropped, headings, list markers, numbering and emphasis are removed,
/// and each kept line is white-space normalized.
pub fn sanitize_plain_text(raw: &str) -> (r: String)
    ensures
        r@ == sanitized(raw@),
{
    let v = str_to_chars(raw);
    let lines = crate::text::lines_vec(&v);
    let fence = str_to_chars("```");
    let pre1 = str_to_chars("- ");
    let pre2 = str_to_chars("* ");
    let pre3 = str_to_chars("• ");
    let pre4 = str_to_chars("> ");
    let pat_star = str_to_chars("**");
    let pat_under = str_to_chars("__");
    let pat_tick = str_to_chars("`");
    proof {
        reveal_strlit("---");
        reveal_strlit("***");
        reveal_strlit("___");
        reveal_strlit("**");
        reveal_strlit("__");
        reveal_strlit("`");
        assert("---"@.len() == 3);
        assert("***"@.len() == 3);
        assert("___"@.len() == 3);
        assert("**"@.len() == 2);
        assert("__"@.len() == 2);
        assert("`"@.len() == 1);
    }
    let n = lines.len();
    let mut out: Vec<String> = Vec::new();
    let mut in_code: bool = false;
    let mut i: usize = 0;
    while i < n
        invariant
            n == lines@.len(),
            lines.deep_view() == crate::text::lines_of(v@),
            fence@ == "```"@,
            pre1@ == "- "@,
            pre2@ == "* "@,
            pre3@ == "• "@,
            pre4@ == "> "@,
            pat_star@ == "**"@ && pat_star@.len() == 2,
            pat_under@ == "__"@ && pat_under@.len() == 2,
            pat_tick@ == "`"@ && pat_tick@.len() == 1,
            i <= n,
            (views_of(out@), in_code) == sanitize_prefix(crate::text::lines_of(v@), i as int),
        decreases n - i,
    {
        proof {
            assert(lines@[i as int]@ == lines.deep_view()[i as int]);
        }
        let line = &lines[i];
        let t = crate::text::trim_vec(line);
        if crate::text::starts_with_vec(&t, &fence) {
            in_code = !in_code;
        } else if in_code {
        } else {
            let h = crate::text::drop_hashes_vec(t);
            let rule: bool = h.len() == 3 && ((h[0] == '-' && h[1] == '-' && h[2] == '-') || (h[0]
                == '*' && h[1] == '*' && h[2] == '*') || (h[0] == '_' && h[1] == '_' && h[2]
                == '_'));
            proof {
                reveal_strlit("---");
                reveal_strlit("***");
                reveal_strlit("___");
                if rule {
                    if h@[0] == '-' {
                        assert(h@ =~= "---"@);
                    } else if h@[0] == '*' {
                        assert(h@ =~= "***"@);
                    } else {
                        assert(h@ =~= "___"@);
                    }
                }
                assert(rule == is_rule(h@));
            }
            if !rule {
                let p1 = crate::text::strip_prefix_ws_vec(&h, &pre1);
                let p2 = crate::text::strip_prefix_ws_vec(&p1, &pre2);
                let p3 = crate::text::strip_prefix_ws_vec(&p2, &pre3);
                let p4 = crate::text::strip_prefix_ws_vec(&p3, &pre4);
                let q = crate::text::strip_numeric_list_prefix_vec(&p4);
                let r1 = crate::text::remove_all_vec(&q, &pat_star);
                let r2 = crate::text::remove_all_vec(&r1, &pat_under);
                let r3 = crate::text::remove_all_vec(&r2, &pat_tick);
                let norm = crate::text::normalize_ws_vec(&r3);
                if norm.len() > 0 {
                    let ghost before = views_of(out@);
                    out.push(crate::text::chars_to_string(&norm));
                    proof {
                        assert(views_of(out@) =~~= before.push(
                            line_payload(lines.deep_view()[i as int]),
                        ));
                    }
                }
            }
        }
        i = i + 1;
    }
    crate::text::join_strings(&out, "\n")
}

/// Removes a numeric list prefix (digits plus `.` or `)` plus white
/// space) from the front of a line, when one is present.
pub fn strip_numeric_list_prefix(line: &str) -> (r: String)
    ensures
        r@ == crate::text::stripped_numeric_prefix(line@),
{
    let v = str_to_chars(line);
    let stripped = crate::text::strip_numeric_list_prefix_vec(&v);
    crate::text::chars_to_string(&stripped)
}

/// The recap lines kept from sanitized output: each trimmed, blank and
/// disclaimer lines dropped.
pub open spec fn recap_kept(ls: Seq<Seq<char>>) -> Seq<Seq<char>>
    decreases ls.len(),
{
    if ls.len() == 0 {
        Seq::<Seq<char>>::empty()
    } else {
        let t = trim_of(ls[0]);
        let rest = recap_kept(ls.drop_first());
        if t.len() > 0 && !is_noise_line(t) {
            seq![t] + rest
        } else {
            rest
        }
    }
}

/// The recap made from sanitized output: kept lines merged into one
/// clipped paragraph, or a language-dependent message when nothing
/// remains.
pub open spec fn spec_normalize_recap(cleaned: Seq<char>, lang: Seq<char>) -> Seq<char> {
    let kept = recap_kept(crate::text::lines_of(cleaned));
    if kept.len() == 0 {
        if starts_with_seq(lang, "ja"@) {
            "要約を生成できませんでした。"@
        } else {
            "Could not generate a recap."@
        }
    } else {
        clamped_text(join_with(kept, " "@), MAX_RECAP_CHARS as nat)
    }
}

/// Merges sanitized recap output into one clipped paragraph, dropping
/// blank lines and transcription-quality disclaimers.
pub fn normalize_recap_output(cleaned: &str, llm_language: &str) -> (r: String)
    ensures
        r@ == spec_normalize_recap(cleaned@, llm_language@),
{
    let v = str_to_chars(cleaned);
    let lines = crate::text::lines_vec(&v);
    let n = lines.len();
    let mut kept: Vec<String> = Vec::new();
    let mut i: usize = 0;
    proof {
        assert(crate::text::lines_of(v@).skip(0) =~= crate::text::lines_of(v@));
        assert(Seq::<Seq<char>>::empty() + recap_kept(crate::text::lines_of(v@)) =~= recap_kept(
            crate::text::lines_of(v@),
        ));
    }
    while i < n
        invariant
            n == lines@.len(),
            lines.deep_view() == crate::text::lines_of(v@),
            i <= n,
            recap_kept(crate::text::lines_of(v@)) == views_of(kept@) + recap_kept(
                crate::text::lines_of(v@).skip(i as int),
            ),
        decreases n - i,
    {
        let ghost ls = crate::text::lines_of(v@);
        let ghost rest = ls.skip(i as int);
        proof {
            assert(rest[0] == ls[i as int]);
            assert(rest.drop_first() =~= ls.skip(i + 1));
            assert(lines@[i as int]@ == ls[i as int]);
        }
        let t = crate::text::trim_vec(&lines[i]);
        let ts = crate::text::chars_to_string(&t);
        if t.len() > 0 && !is_recap_noise_line(ts.as_str()) {
            let ghost before = views_of(kept@);
            kept.push(ts);
            proof {
                assert(views_of(kept@) =~= before.push(trim_of(ls[i as int])));
                assert(before + (seq![trim_of(ls[i as int])] + recap_kept(ls.skip(i + 1)))
                    =~= views_of(kept@) + recap_kept(ls.skip(i + 1)));
            }
        }
        i = i + 1;
    }
    proof {
        let ls = crate::text::lines_of(v@);
        assert(ls.skip(n as int) =~= Seq::<Seq<char>>::empty());
        assert(views_of(kept@) + Seq::<Seq<char>>::empty() =~= views_of(kept@));
    }
    if kept.len() == 0 {
        let lang_chars = str_to_chars(llm_language);
        let ja = str_to_chars("ja");
        if crate::text::starts_with_vec(&lang_chars, &ja) {
            String::from_str("要約を生成できませんでした。")
        } else {
            String::from_str("Could not generate a recap.")
        }
    } else {
        let merged = crate::text::join_strings(&kept, " ");
        clamp_text(merged.as_str(), MAX_RECAP_CHARS)
    }
}

/// Model output readied for display: recaps are merged and clipped;
/// other replies keep the sanitized text, with a language-dependent
/// message when nothing remains.
pub open spec fn spec_normalize_ai_output(kind: ActionKind, raw: Seq<char>, lang: Seq<char>) -> Seq<
    char,
> {
    let cleaned = sanitized(raw);
    if kind is Recap {
        spec_normalize_recap(cleaned, lang)
    } else if trim_of(cleaned).len() == 0 {
        if starts_with_seq(lang, "ja"@) {
            "回答を生成できませんでした。"@
        } else {
            "Could not generate a response."@
        }
    } else {
        cleaned
    }
}

/// Normalizes a model reply for display according to the action kind.
pub fn normalize_ai_output(action_kind: ActionKind, raw: &str, llm_language: &str) -> (r: String)
    ensures
        r@ == spec_normalize_ai_output(action_kind, raw@, llm_language@),
{
    let cleaned = sanitize_plain_text(raw);
    match action_kind {
        ActionKind::Recap => normalize_recap_output(cleaned.as_str(), llm_language),
        _ => {
            let t = trim_str(cleaned.as_str());
            if t.unicode_len() == 0 {
                let lang_chars = str_to_chars(llm_language);
                let ja = str_to_chars("ja");
                if crate::text::starts_with_vec(&lang_chars, &ja) {
                    String::from_str("回答を生成できませんでした。")
                } else {
                    String::from_str("Could not generate a response.")
                }
            } else {
                cleaned
            }
        },
    }
}

/// An even sample of `target` captions across a longer list; shorter
/// lists are returned whole.
pub open spec fn sampled_captions(cs: Seq<CaptionEntry>, target: nat) -> Seq<CaptionEntry> {
    if cs.len() == 0 || target == 0 {
        Seq::<CaptionEntry>::empty()
    } else if cs.len() <= target {
        cs
    } else {
        Seq::new(target, |i: int| cs[i * cs.len() / target as int])
    }
}

/// Takes an even chronological sample of the captions, one every
/// `len / target` positions, when there are more than `target` of them.
pub fn sample_evenly(captions: &Vec<CaptionEntry>, target: usize) -> (r: Vec<CaptionEntry>)
    ensures
        r@ == sampled_captions(captions@, target as nat),
{
    let n = captions.len();
    if n == 0 || target == 0 {
        let r: Vec<CaptionEntry> = Vec::new();
        proof {
            assert(r@ =~= sampled_captions(captions@, target as nat));
        }
        return r;
    }
    if n <= target {
        let mut r: Vec<CaptionEntry> = Vec::new();
        let mut i: usize = 0;
        while i < n
            invariant
                n == captions@.len(),
                i <= n,
                r@ == captions@.take(i as int),
            decreases n - i,
        {
            r.push(captions[i].clone());
            proof {
                assert(r@ =~= captions@.take(i + 1));
            }
            i = i + 1;
        }
        proof {
            assert(r@ =~= captions@);
        }
        return r;
    }
    let mut r: Vec<CaptionEntry> = Vec::new();
    let mut i: usize = 0;
    while i < target
        invariant
            n == captions@.len(),
            n > target >= 1,
            i <= target,
            r@.len() == i,
            forall|j: int| 0 <= j < i ==> r@[j] == captions@[j * n / target as int],
        decreases target - i,
    {
        proof {
            assert((i as int) * (n as int) < 0x1_0000_0000_0000_0000_0000_0000_0000_0000)
                by (nonlinear_arith)
                requires
                    0 <= i < 0x1_0000_0000_0000_0000,
                    0 <= n < 0x1_0000_0000_0000_0000,
            ;
            assert((i as int) * (n as int) < (n as int) * (target as int)) by (nonlinear_arith)
                requires
                    0 <= i,
                    i < target,
                    n >= 1,
            ;
            crate::resample::lemma_div_below((i as int) * (n as int), target as int, n as int);
        }
        let idx128: u128 = (i as u128) * (n as u128) / (target as u128);
        let idx: usize = idx128 as usize;
        r.push(captions[idx].clone());
        i = i + 1;
    }
    proof {
        assert forall|j: int|
            0 <= j < target implies r@[j] == sampled_captions(captions@, target as nat)[j] by {
            assert((j as int) * (n as int) < (n as int) * (target as int)) by (nonlinear_arith)
                requires
                    0 <= j,
                    j < target,
                    n >= 1,
            ;
            crate::resample::lemma_div_below(j * (n as int), target as int, n as int);
        };
        assert(r@ =~= sampled_captions(captions@, target as nat));
    }
    r
}

/// The context lines of a caption list.
pub open spec fn context_lines(cs: Seq<CaptionEntry>, tags: Seq<String>) -> Seq<Seq<char>> {
    cs.map_values(|c: CaptionEntry| caption_line(c, tags))
}

/// The last `take` captions of a list (all of them when shorter).
pub open spec fn last_captions(cs: Seq<CaptionEntry>, take: nat) -> Seq<CaptionEntry> {
    if cs.len() <= take {
        cs
    } else {
        cs.skip(cs.len() - take)
    }
}

/// The placeholder context of a session without captions.
pub open spec fn no_captions_msg() -> Seq<char> {
    "No captions available yet."@
}

/// The free-form context: the last `take` chosen captions as lines,
/// clipped to the context budget.
pub open spec fn spec_recent_context(cs: Seq<CaptionEntry>, take: nat, tags: Seq<String>) -> Seq<
    char,
> {
    let chosen = chosen_captions(cs);
    if chosen.len() == 0 {
        no_captions_msg()
    } else {
        clamped_text(
            join_with(context_lines(last_captions(chosen, take), tags), "\n"@),
            MAX_CONTEXT_CHARS as nat,
        )
    }
}

/// The recency-weighted context: a small even whole-timeline sample
/// under a low-weight header, then the recent captions verbatim under a
/// high-weight header, clipped to the context budget.
pub open spec fn spec_recent_priority_context(cs: Seq<CaptionEntry>, tags: Seq<String>) -> Seq<
    char,
> {
    let chosen = chosen_captions(cs);
    if chosen.len() == 0 {
        no_captions_msg()
    } else {
        let sample_n: nat = if chosen.len() <= 16 {
            chosen.len()
        } else {
            16
        };
        let global = join_with(context_lines(sampled_captions(chosen, sample_n), tags), "\n"@);
        let recent = join_with(context_lines(last_captions(chosen, 42), tags), "\n"@);
        clamped_text(
            "Long-range context (low weight):\n"@ + global
                + "\n\nRecent context (high weight, prioritize this when summarizing):\n"@
                + recent,
            MAX_CONTEXT_CHARS as nat,
        )
    }
}

/// The whole-timeline context for action extraction: a larger even
/// sample under a primary header, then the recent captions under a
/// secondary header, clipped to the context budget.
pub open spec fn spec_action_global_context(cs: Seq<CaptionEntry>, tags: Seq<String>) -> Seq<char> {
    let chosen = chosen_captions(cs);
    if chosen.len() == 0 {
        no_captions_msg()
    } else {
        let sample_n: nat = if chosen.len() <= 72 {
            chosen.len()
        } else {
            72
        };
        let timeline = join_with(context_lines(sampled_captions(chosen, sample_n), tags), "\n"@);
        let recent = join_with(context_lines(last_captions(chosen, 24), tags), "\n"@);
        clamped_text(
            "Whole-timeline context (high weight, primary for action extraction):\n"@ + timeline
                + "\n\nRecent context (secondary reference):\n"@ + recent,
            MAX_CONTEXT_CHARS as nat,
        )
    }
}

/// The conversation context each action kind is given.
pub open spec fn spec_context_for(cs: Seq<CaptionEntry>, kind: ActionKind, tags: Seq<String>) -> Seq<
    char,
> {
    match kind {
        ActionKind::Recap => spec_recent_priority_context(cs, tags),
        ActionKind::Assist => spec_recent_priority_context(cs, tags),
        ActionKind::Question => spec_recent_priority_context(cs, tags),
        ActionKind::Action => spec_action_global_context(cs, tags),
        ActionKind::Freeform => spec_recent_context(cs, 40, tags),
    }
}

/// One rendered context line per caption.
fn build_context_lines(list: &Vec<CaptionEntry>, tags: &[String]) -> (r: Vec<String>)
    ensures
        views_of(r@) == context_lines(list@, tags@),
{
    let n = list.len();
    let mut r: Vec<String> = Vec::new();
    let mut i: usize = 0;
    while i < n
        invariant
            n == list@.len(),
            i <= n,
            r@.len() == i,
            forall|j: int| 0 <= j < i ==> #[trigger] r@[j]@ == caption_line(list@[j], tags@),
        decreases n - i,
    {
        r.push(format_caption_line(&list[i], tags));
        i = i + 1;
    }
    proof {
        assert(views_of(r@) =~~= context_lines(list@, tags@));
    }
    r
}

/// The last `take` captions of a list, cloned in order.
fn tail_captions(list: &Vec<CaptionEntry>, take: usize) -> (r: Vec<CaptionEntry>)
    ensures
        r@ == last_captions(list@, take as nat),
{
    let n = list.len();
    let start = if n <= take {
        0
    } else {
        n - take
    };
    let mut r: Vec<CaptionEntry> = Vec::new();
    let mut i: usize = start;
    while i < n
        invariant
            n == list@.len(),
            start <= i <= n,
            r@ == list@.subrange(start as int, i as int),
        decreases n - i,
    {
        r.push(list[i].clone());
        proof {
            assert(r@ =~= list@.subrange(start as int, i + 1));
        }
        i = i + 1;
    }
    proof {
        assert(r@ =~= last_captions(list@, take as nat));
    }
    r
}

/// Builds the free-form context from the last `take` chosen captions.
pub fn build_recent_context(
    session: &crate::captions::SessionData,
    take: usize,
    self_speaker_tags: &[String],
) -> (r: String)
    ensures
        r@ == spec_recent_context(session.captions@, take as nat, self_speaker_tags@),
{
    let chosen = select_context_captions(session);
    if chosen.len() == 0 {
        return String::from_str("No captions available yet.");
    }
    let recent = tail_captions(&chosen, take);
    let lines = build_context_lines(&recent, self_speaker_tags);
    let joined = crate::text::join_strings(&lines, "\n");
    clamp_text(joined.as_str(), MAX_CONTEXT_CHARS)
}

/// Builds the recency-weighted context: an even whole-timeline sample
/// plus the recent captions verbatim.
pub fn build_recent_priority_context(
    session: &crate::captions::SessionData,
    self_speaker_tags: &[String],
) -> (r: String)
    ensures
        r@ == spec_recent_priority_context(session.captions@, self_speaker_tags@),
{
    let chosen = select_context_captions(session);
    if chosen.len() == 0 {
        return String::from_str("No captions available yet.");
    }
    let sample_n = if chosen.len() <= 16 {
        chosen.len()
    } else {
        16
    };
    let sampled = sample_evenly(&chosen, sample_n);
    let global_lines = build_context_lines(&sampled, self_speaker_tags);
    let global = crate::text::join_strings(&global_lines, "\n");
    let recent = tail_captions(&chosen, 42);
    let recent_lines = build_context_lines(&recent, self_speaker_tags);
    let recent_text = crate::text::join_strings(&recent_lines, "\n");
    let mut combined = String::from_str("Long-range context (low weight):\n");
    combined.append(global.as_str());
    combined.append("\n\nRecent context (high weight, prioritize this when summarizing):\n");
    combined.append(recent_text.as_str());
    clamp_text(combined.as_str(), MAX_CONTEXT_CHARS)
}

/// Builds the whole-timeline context for action extraction.
pub fn build_action_global_context(
    session: &crate::captions::SessionData,
    self_speaker_tags: &[String],
) -> (r: String)
    ensures
        r@ == spec_action_global_context(session.captions@, self_speaker_tags@),
{
    let chosen = select_context_captions(session);
    if chosen.len() == 0 {
        return String::from_str("No captions available yet.");
    }
    let sample_n = if chosen.len() <= 72 {
        chosen.len()
    } else {
        72
    };
    let sampled = sample_evenly(&chosen, sample_n);
    let timeline_lines = build_context_lines(&sampled, self_speaker_tags);
    let timeline = crate::text::join_strings(&timeline_lines, "\n");
    let recent = tail_captions(&chosen, 24);
    let recent_lines = build_context_lines(&recent, self_speaker_tags);
    let recent_text = crate::text::join_strings(&recent_lines, "\n");
    let mut combined = String::from_str(
        "Whole-timeline context (high weight, primary for action extraction):\n",
    );
    combined.append(timeline.as_str());
    combined.append("\n\nRecent context (secondary reference):\n");
    combined.append(recent_text.as_str());
    clamp_text(combined.as_str(), MAX_CONTEXT_CHARS)
}

/// Position `i` holds the first occurrence of `c`.
pub open spec fn first_occurrence_of(v: Seq<char>, c: char, i: int) -> bool {
    0 <= i < v.len() && v[i] == c && forall|j: int| 0 <= j < i ==> v[j] != c
}

/// Position `i` holds the last occurrence of `c`.
pub open spec fn last_occurrence_of(v: Seq<char>, c: char, i: int) -> bool {
    0 <= i < v.len() && v[i] == c && forall|j: int| i < j < v.len() ==> v[j] != c
}

/// Cuts the span from the first `{` to the last `}` out of a model
/// reply, so that prose around a JSON object does not break parsing;
/// nothing when no such nonempty span exists.
pub fn extract_json_object(raw: &str) -> (r: Option<String>)
    ensures
        r matches Some(s) ==> exists|f: int, l: int|
            first_occurrence_of(raw@, '{', f) && last_occurrence_of(raw@, '}', l) && f < l && s@
                == raw@.subrange(f, l + 1),
        r is None ==> forall|f: int, l: int|
            !(first_occurrence_of(raw@, '{', f) && last_occurrence_of(raw@, '}', l) && f < l),
{
    let v = str_to_chars(raw);
    let n = v.len();
    let mut f: usize = 0;
    while f < n && v[f] != '{'
        invariant
            n == v@.len(),
            v@ == raw@,
            f <= n,
            forall|j: int| 0 <= j < f ==> v@[j] != '{',
        decreases n - f,
    {
        f = f + 1;
    }
    if f == n {
        proof {
            assert(forall|i: int| !first_occurrence_of(raw@, '{', i));
        }
        return None;
    }
    let mut l: usize = n;
    while l > 0 && v[l - 1] != '}'
        invariant
            n == v@.len(),
            v@ == raw@,
            l <= n,
            forall|j: int| l <= j < n ==> v@[j] != '}',
        decreases l,
    {
        l = l - 1;
    }
    if l == 0 {
        proof {
            assert(forall|i: int| !last_occurrence_of(raw@, '}', i));
        }
        return None;
    }
    let last = l - 1;
    if last <= f {
        proof {
            assert(first_occurrence_of(raw@, '{', f as int));
            assert(last_occurrence_of(raw@, '}', last as int));
            assert forall|a: int, b: int|
                !(first_occurrence_of(raw@, '{', a) && last_occurrence_of(raw@, '}', b) && a
                    < b) by {
                if first_occurrence_of(raw@, '{', a) && last_occurrence_of(raw@, '}', b) {
                    assert(a == f && b == last);
                }
            };
        }
        return None;
    }
    let mut s: Vec<char> = Vec::new();
    let mut i: usize = f;
    while i <= last
        invariant
            n == v@.len(),
            v@ == raw@,
            f <= i <= last + 1,
            last < n,
            s@ == v@.subrange(f as int, i as int),
        decreases last - i + 1,
    {
        s.push(v[i]);
        proof {
            assert(s@ =~= v@.subrange(f as int, i + 1));
        }
        i = i + 1;
    }
    proof {
        assert(first_occurrence_of(raw@, '{', f as int));
        assert(last_occurrence_of(raw@, '}', last as int));
    }
    Some(crate::text::chars_to_string(&s))
}

/// Builds the conversation context an action kind is given: recaps,
/// speaking suggestions and questions weight recent turns; action
/// extraction reads the whole timeline; free-form queries see the last
/// forty captions.
pub fn build_context_from_session(
    session: &crate::captions::SessionData,
    action_kind: ActionKind,
    self_speaker_tags: &[String],
) -> (r: String)
    ensures
        r@ == spec_context_for(session.captions@, action_kind, self_speaker_tags@),
{
    match action_kind {
        ActionKind::Recap => build_recent_priority_context(session, self_speaker_tags),
        ActionKind::Assist => build_recent_priority_context(session, self_speaker_tags),
        ActionKind::Question => build_recent_priority_context(session, self_speaker_tags),
        ActionKind::Action => build_action_global_context(session, self_speaker_tags),
        ActionKind::Freeform => build_recent_context(session, 40, self_speaker_tags),
    }
}

} // verus!
