//! Session and caption bookkeeping: the caption list with its
//! interim-replacement rule, session records, duration formatting,
//! participant estimation, and the transcript fallbacks built when no
//! summary can be generated.

use vstd::prelude::*;

use crate::text::{
    chars_to_string, dec2_of, dec_of, join_strings, join_with, normalize_ws_vec, normalized_ws,
    starts_with_seq, starts_with_vec, str_eq, str_to_chars, take_vec, trim_end_vec, trim_of,
    trim_str, trim_vec, u64_to_dec, u64_to_dec2, views_of,
};

verus! {

/// One recognized caption: arrival time, speaker/source label, finality
/// status (`interim` or `final`), and the text.
pub struct CaptionEntry {
    pub time: String,
    pub source: String,
    pub status: String,
    pub text: String,
}

impl Clone for CaptionEntry {
    fn clone(&self) -> (r: Self)
        ensures
            r == *self,
    {
        CaptionEntry {
            time: self.time.clone(),
            source: self.source.clone(),
            status: self.status.clone(),
            text: self.text.clone(),
        }
    }
}

/// One AI interaction recorded for a session.
pub struct AiLogEntry {
    pub time: String,
    pub log_type: String,
    pub role: String,
    pub text: String,
}

impl Clone for AiLogEntry {
    fn clone(&self) -> (r: Self)
        ensures
            r == *self,
    {
        AiLogEntry {
            time: self.time.clone(),
            log_type: self.log_type.clone(),
            role: self.role.clone(),
            text: self.text.clone(),
        }
    }
}

/// One recording session and everything captured for it.
pub struct SessionData {
    pub id: String,
    pub title: String,
    pub duration: String,
    pub time: String,
    pub created_at: String,
    pub is_active: bool,
    pub captions: Vec<CaptionEntry>,
    pub ai_logs: Vec<AiLogEntry>,
    pub summary: String,
    pub participants: u32,
    pub ai_assists: u32,
    pub self_speaker_tags: Vec<String>,
}

/// The role recorded for an AI log entry when none is given.
pub fn default_ai_log_role() -> (r: String)
    ensures
        r@ == "assistant"@,
{
    String::from_str("assistant")
}

/// A provisional caption awaiting confirmation.
pub open spec fn is_interim(c: CaptionEntry) -> bool {
    c.status@ == "interim"@
}

/// The caption list after one event arrives: a trailing interim caption
/// is replaced in place, anything else is appended as a new entry.
pub open spec fn applied_captions(cs: Seq<CaptionEntry>, e: CaptionEntry) -> Seq<CaptionEntry> {
    if cs.len() > 0 && is_interim(cs.last()) {
        cs.update(cs.len() - 1, e)
    } else {
        cs.push(e)
    }
}

/// At most the last caption of a session is interim.
pub open spec fn at_most_one_trailing_interim(cs: Seq<CaptionEntry>) -> bool {
    forall|i: int| 0 <= i < cs.len() - 1 ==> !is_interim(#[trigger] cs[i])
}

/// Applies one transcript event to a session's caption list: a trailing
/// interim caption is replaced, anything else appended.
pub fn apply_caption(captions: &mut Vec<CaptionEntry>, entry: CaptionEntry)
    ensures
        final(captions)@ == applied_captions(old(captions)@, entry),
{
    let n = captions.len();
    let replace_last = if n > 0 {
        str_eq(captions[n - 1].status.as_str(), "interim")
    } else {
        false
    };
    if replace_last {
        captions[n - 1] = entry;
    } else {
        captions.push(entry);
    }
}

/// Two interim events in a row do not grow the caption list: the second
/// replaces the first.
pub proof fn lemma_interim_replacement(cs: Seq<CaptionEntry>, e1: CaptionEntry, e2: CaptionEntry)
    requires
        is_interim(e1),
    ensures
        applied_captions(applied_captions(cs, e1), e2).len() == applied_captions(cs, e1).len(),
{
    let after1 = applied_captions(cs, e1);
    assert(after1.last() == e1);
}

/// A final event arriving when no interim caption is trailing grows the
/// caption list by exactly one new entry. (A final event that lands on a
/// trailing interim caption replaces it instead.)
pub proof fn lemma_final_appends(cs: Seq<CaptionEntry>, e: CaptionEntry)
    requires
        cs.len() == 0 || !is_interim(cs.last()),
    ensures
        applied_captions(cs, e).len() == cs.len() + 1,
        applied_captions(cs, e).last() == e,
{
}

/// Applying any event preserves the invariant that at most one trailing
/// interim caption exists per session.
pub proof fn lemma_at_most_one_trailing_interim(cs: Seq<CaptionEntry>, e: CaptionEntry)
    requires
        at_most_one_trailing_interim(cs),
    ensures
        at_most_one_trailing_interim(applied_captions(cs, e)),
{
}

/// The rendering of a nonnegative duration: `h:mm:ss` when at least an
/// hour, `m:ss` otherwise (negative inputs count as zero).
pub open spec fn spec_format_duration(total_seconds: int) -> Seq<char> {
    let n = if total_seconds >= 0 {
        total_seconds as nat
    } else {
        0
    };
    let hours = n / 3600;
    let minutes = (n % 3600) / 60;
    let seconds = n % 60;
    if hours > 0 {
        dec_of(hours) + seq![':'] + dec2_of(minutes) + seq![':'] + dec2_of(seconds)
    } else {
        dec_of(minutes) + seq![':'] + dec2_of(seconds)
    }
}

/// Renders a duration in seconds as `h:mm:ss` or `m:ss`.
pub fn format_duration(total_seconds: i64) -> (r: String)
    ensures
        r@ == spec_format_duration(total_seconds as int),
{
    let n: u64 = if total_seconds >= 0 {
        total_seconds as u64
    } else {
        0
    };
    let hours = n / 3600;
    let minutes = (n % 3600) / 60;
    let seconds = n % 60;
    let mut out: Vec<char> = Vec::new();
    if hours > 0 {
        let mut h = u64_to_dec(hours);
        out.append(&mut h);
        out.push(':');
        let mut m = u64_to_dec2(minutes);
        out.append(&mut m);
        out.push(':');
        let mut s = u64_to_dec2(seconds);
        out.append(&mut s);
        proof {
            assert(out@ =~= spec_format_duration(total_seconds as int));
        }
    } else {
        let mut m = u64_to_dec(minutes);
        out.append(&mut m);
        out.push(':');
        let mut s = u64_to_dec2(seconds);
        out.append(&mut s);
        proof {
            assert(out@ =~= spec_format_duration(total_seconds as int));
        }
    }
    chars_to_string(&out)
}

/// The trimmed source label of a caption.
pub open spec fn trimmed_source(c: CaptionEntry) -> Seq<char> {
    trim_of(c.source@)
}

/// Whether position `i` holds the first caption carrying its (nonempty,
/// trimmed) source label.
pub open spec fn first_occurrence(cs: Seq<CaptionEntry>, i: int) -> bool {
    &&& 0 <= i < cs.len()
    &&& trimmed_source(cs[i]).len() > 0
    &&& forall|j: int| 0 <= j < i ==> trimmed_source(#[trigger] cs[j]) != trimmed_source(cs[i])
}

/// How many distinct nonempty source labels appear among the first `n`
/// captions.
pub open spec fn participant_count_prefix(cs: Seq<CaptionEntry>, n: int) -> int
    decreases n,
{
    if n <= 0 {
        0
    } else {
        participant_count_prefix(cs, n - 1) + if first_occurrence(cs, n - 1) {
            1int
        } else {
            0int
        }
    }
}

/// The number of distinct nonempty (trimmed) source labels in a caption
/// list.
pub open spec fn participant_count(cs: Seq<CaptionEntry>) -> int {
    participant_count_prefix(cs, cs.len() as int)
}

proof fn lemma_participant_count_bound(cs: Seq<CaptionEntry>, n: int)
    requires
        0 <= n <= cs.len(),
    ensures
        0 <= participant_count_prefix(cs, n) <= n,
    decreases n,
{
    if n > 0 {
        lemma_participant_count_bound(cs, n - 1);
    }
}

/// Counts the distinct nonempty source labels among the captions: an
/// estimate of how many participants spoke.
pub fn estimate_participants(captions: &[CaptionEntry]) -> (r: u32)
    ensures
        r == participant_count(captions@) as u32,
{
    let n = captions.len();
    let mut count: usize = 0;
    let mut i: usize = 0;
    while i < n
        invariant
            n == captions@.len(),
            i <= n,
            count == participant_count_prefix(captions@, i as int),
            count <= i,
        decreases n - i,
    {
        let ti = trim_str(captions[i].source.as_str());
        if ti.unicode_len() > 0 {
            let mut fresh = true;
            let mut j: usize = 0;
            while j < i
                invariant
                    n == captions@.len(),
                    i < n,
                    ti@ == trimmed_source(captions@[i as int]),
                    j <= i,
                    fresh ==> forall|t: int|
                        0 <= t < j ==> trimmed_source(#[trigger] captions@[t]) != trimmed_source(
                            captions@[i as int],
                        ),
                    !fresh ==> !first_occurrence(captions@, i as int),
                decreases i - j,
            {
                let tj = trim_str(captions[j].source.as_str());
                if str_eq(ti.as_str(), tj.as_str()) {
                    fresh = false;
                    j = i;
                } else {
                    j = j + 1;
                }
            }
            if fresh {
                proof {
                    assert(first_occurrence(captions@, i as int));
                }
                count = count + 1;
            }
        } else {
            proof {
                assert(!first_occurrence(captions@, i as int));
            }
        }
        i = i + 1;
    }
    proof {
        lemma_participant_count_bound(captions@, n as int);
    }
    #[verifier::truncate]
    let r: u32 = count as u32;
    r
}

/// White-space normalization of a line of text: inner runs collapse to
/// single spaces, the ends are trimmed.
pub fn normalize_line_text(input: &str) -> (r: String)
    ensures
        r@ == normalized_ws(input@),
{
    let v = str_to_chars(input);
    let normalized = normalize_ws_vec(&v);
    chars_to_string(&normalized)
}

/// A value trimmed and clipped to at most `max` characters, a clipped
/// value ending in an ellipsis.
pub open spec fn clamped_ellipsis(v: Seq<char>, max: nat) -> Seq<char> {
    let t = trim_of(v);
    if t.len() <= max {
        t
    } else {
        let keep = if max >= 1 {
            (max - 1) as nat
        } else {
            0
        };
        crate::text::trim_end_of(t.take(keep as int)) + seq!['…']
    }
}

/// Trims the value and clips it to at most `max` characters, appending
/// an ellipsis when clipping happened.
pub fn clamp_with_ellipsis(value: &str, max_chars: usize) -> (r: String)
    ensures
        r@ == clamped_ellipsis(value@, max_chars as nat),
{
    let v = str_to_chars(value);
    let t = trim_vec(&v);
    if t.len() <= max_chars {
        chars_to_string(&t)
    } else {
        let keep = if max_chars >= 1 {
            max_chars - 1
        } else {
            0
        };
        let head = take_vec(&t, keep);
        let trimmed_head = trim_end_vec(&head);
        let mut out = chars_to_string(&trimmed_head);
        crate::text::push_char(&mut out, '…');
        proof {
            assert(head@ =~= trim_of(v@).take(keep as int));
            assert(out@ =~= clamped_ellipsis(value@, max_chars as nat));
        }
        out
    }
}

/// The first caption text that is nonempty after trimming, itself
/// trimmed; the placeholder title when none exists.
pub open spec fn first_seed(cs: Seq<CaptionEntry>) -> Seq<char>
    decreases cs.len(),
{
    if cs.len() == 0 {
        "Untitled session"@
    } else if trim_of(cs[0].text@).len() > 0 {
        trim_of(cs[0].text@)
    } else {
        first_seed(cs.drop_first())
    }
}

proof fn lemma_first_seed_skip(cs: Seq<CaptionEntry>, i: int)
    requires
        0 <= i <= cs.len(),
        forall|j: int| 0 <= j < i ==> trim_of(#[trigger] cs[j].text@).len() == 0,
    ensures
        first_seed(cs) == first_seed(cs.skip(i)),
    decreases i,
{
    if i > 0 {
        assert(cs.drop_first() =~= cs.skip(1));
        lemma_first_seed_skip(cs.skip(1), i - 1);
        assert(cs.skip(1).skip(i - 1) =~= cs.skip(i));
    } else {
        assert(cs.skip(0) =~= cs);
    }
}

/// The title used when none could be generated: the first nonempty
/// caption text, white-space-normalized and clipped to the title length;
/// a language-dependent placeholder when the session holds no text.
pub open spec fn spec_fallback_title(cs: Seq<CaptionEntry>, lang: Seq<char>) -> Seq<char> {
    let normalized = normalized_ws(first_seed(cs));
    if normalized.len() == 0 {
        if starts_with_seq(lang, "ja"@) {
            "会議メモ"@
        } else {
            "Untitled session"@
        }
    } else {
        clamped_ellipsis(normalized, 42)
    }
}

/// Builds a session title from the captions when the summarizer could
/// not: the first nonempty caption text, normalized and clipped.
pub fn fallback_title(captions: &[CaptionEntry], llm_language: &str) -> (r: String)
    ensures
        r@ == spec_fallback_title(captions@, llm_language@),
{
    let n = captions.len();
    let mut seed = String::from_str("Untitled session");
    let mut i: usize = 0;
    let mut found = false;
    while i < n && !found
        invariant
            n == captions@.len(),
            i <= n,
            !found ==> {
                &&& seed@ == "Untitled session"@
                &&& forall|j: int| 0 <= j < i ==> trim_of(#[trigger] captions@[j].text@).len() == 0
            },
            found ==> seed@ == first_seed(captions@),
        decreases
                n - i + (if found {
                    0int
                } else {
                    1int
                }),
    {
        let t = trim_str(captions[i].text.as_str());
        if t.unicode_len() > 0 {
            proof {
                lemma_first_seed_skip(captions@, i as int);
                assert(captions@.skip(i as int)[0] == captions@[i as int]);
            }
            seed = t;
            found = true;
        } else {
            i = i + 1;
        }
    }
    proof {
        if !found {
            lemma_first_seed_skip(captions@, n as int);
            assert(captions@.skip(n as int) =~= Seq::<CaptionEntry>::empty());
            reveal_strlit("Untitled session");
        }
    }
    let normalized = normalize_line_text(seed.as_str());
    let lang_chars = str_to_chars(llm_language);
    let ja = str_to_chars("ja");
    if normalized.unicode_len() == 0 {
        if starts_with_vec(&lang_chars, &ja) {
            String::from_str("会議メモ")
        } else {
            String::from_str("Untitled session")
        }
    } else {
        clamp_with_ellipsis(normalized.as_str(), 42)
    }
}

/// Every caption text that is nonempty after trimming, in order, each
/// trimmed.
pub open spec fn nonempty_texts(cs: Seq<CaptionEntry>) -> Seq<Seq<char>>
    decreases cs.len(),
{
    if cs.len() == 0 {
        Seq::<Seq<char>>::empty()
    } else if trim_of(cs[0].text@).len() > 0 {
        seq![trim_of(cs[0].text@)] + nonempty_texts(cs.drop_first())
    } else {
        nonempty_texts(cs.drop_first())
    }
}

/// The summary used when none could be generated: every nonempty caption
/// text joined with spaces, normalized, and clipped; a language-dependent
/// message when the session holds no text.
pub open spec fn spec_fallback_summary(cs: Seq<CaptionEntry>, lang: Seq<char>) -> Seq<char> {
    let merged = join_with(nonempty_texts(cs), " "@);
    if trim_of(merged).len() == 0 {
        if starts_with_seq(lang, "ja"@) {
            "要約を生成できませんでした。"@
        } else {
            "Summary could not be generated."@
        }
    } else {
        clamped_ellipsis(normalized_ws(merged), 6000)
    }
}

/// Builds a plain-text session summary from the captions when the
/// summarizer could not.
pub fn fallback_summary(captions: &[CaptionEntry], llm_language: &str) -> (r: String)
    ensures
        r@ == spec_fallback_summary(captions@, llm_language@),
{
    let n = captions.len();
    let mut parts: Vec<String> = Vec::new();
    let mut i: usize = 0;
    proof {
        assert(captions@.skip(0) =~= captions@);
        assert(Seq::<Seq<char>>::empty() + nonempty_texts(captions@) =~= nonempty_texts(
            captions@,
        ));
    }
    while i < n
        invariant
            n == captions@.len(),
            i <= n,
            nonempty_texts(captions@) == views_of(parts@) + nonempty_texts(
                captions@.skip(i as int),
            ),
        decreases n - i,
    {
        let ghost rest = captions@.skip(i as int);
        let t = trim_str(captions[i].text.as_str());
        proof {
            assert(rest[0] == captions@[i as int]);
            assert(rest.drop_first() =~= captions@.skip(i + 1));
        }
        if t.unicode_len() > 0 {
            let ghost before = views_of(parts@);
            parts.push(t);
            proof {
                assert(views_of(parts@) =~= before + seq![trim_of(captions@[i as int].text@)]);
                assert(before + (seq![trim_of(captions@[i as int].text@)] + nonempty_texts(
                    captions@.skip(i + 1),
                )) =~= views_of(parts@) + nonempty_texts(captions@.skip(i + 1)));
            }
        }
        i = i + 1;
    }
    proof {
        assert(captions@.skip(n as int) =~= Seq::<CaptionEntry>::empty());
        assert(views_of(parts@) + Seq::<Seq<char>>::empty() =~= views_of(parts@));
        assert(views_of(parts@) == nonempty_texts(captions@));
    }
    let merged = join_strings(&parts, " ");
    let trimmed = trim_str(merged.as_str());
    let lang_chars = str_to_chars(llm_language);
    let ja = str_to_chars("ja");
    if trimmed.unicode_len() == 0 {
        if starts_with_vec(&lang_chars, &ja) {
            String::from_str("要約を生成できませんでした。")
        } else {
            String::from_str("Summary could not be generated.")
        }
    } else {
        let normalized = normalize_line_text(merged.as_str());
        clamp_with_ellipsis(normalized.as_str(), 6000)
    }
}

/// A confirmed caption.
pub open spec fn is_final_caption(c: CaptionEntry) -> bool {
    c.status@ == "final"@
}

/// The confirmed captions, in order.
pub open spec fn finals_of(cs: Seq<CaptionEntry>) -> Seq<CaptionEntry>
    decreases cs.len(),
{
    if cs.len() == 0 {
        Seq::<CaptionEntry>::empty()
    } else if is_final_caption(cs[0]) {
        seq![cs[0]] + finals_of(cs.drop_first())
    } else {
        finals_of(cs.drop_first())
    }
}

/// The captions a transcript is built from: the confirmed ones, or all
/// of them when none is confirmed yet.
pub open spec fn chosen_captions(cs: Seq<CaptionEntry>) -> Seq<CaptionEntry> {
    if finals_of(cs).len() == 0 {
        cs
    } else {
        finals_of(cs)
    }
}

/// One transcript line: `[time][source] text`, the text trimmed.
pub open spec fn summary_line(c: CaptionEntry) -> Seq<char> {
    "["@ + c.time@ + "]["@ + c.source@ + "] "@ + trim_of(c.text@)
}

/// An even sample of `target` lines across a longer list: item `i` of
/// the sample is the line at index `i * len / target`. Shorter lists are
/// returned whole.
pub open spec fn sampled_lines(ls: Seq<Seq<char>>, target: nat) -> Seq<Seq<char>> {
    if ls.len() == 0 || target == 0 {
        Seq::<Seq<char>>::empty()
    } else if ls.len() <= target {
        ls
    } else {
        Seq::new(target, |i: int| ls[i * ls.len() / target as int])
    }
}

/// Takes an even chronological sample of the lines, one every
/// `len / target` positions, when there are more than `target` of them.
pub fn sample_evenly_strings(lines: &[String], target: usize) -> (r: Vec<String>)
    ensures
        views_of(r@) == sampled_lines(views_of(lines@), target as nat),
{
    let n = lines.len();
    if n == 0 || target == 0 {
        let r: Vec<String> = Vec::new();
        proof {
            assert(views_of(r@) =~~= sampled_lines(views_of(lines@), target as nat));
        }
        return r;
    }
    if n <= target {
        let mut r: Vec<String> = Vec::new();
        let mut i: usize = 0;
        while i < n
            invariant
                n == lines@.len(),
                i <= n,
                r@.len() == i,
                forall|j: int| 0 <= j < i ==> #[trigger] r@[j]@ == lines@[j]@,
            decreases n - i,
        {
            r.push(lines[i].clone());
            i = i + 1;
        }
        proof {
            assert(views_of(r@) =~~= sampled_lines(views_of(lines@), target as nat));
        }
        return r;
    }
    let mut r: Vec<String> = Vec::new();
    let mut i: usize = 0;
    while i < target
        invariant
            n == lines@.len(),
            n > target >= 1,
            i <= target,
            r@.len() == i,
            forall|j: int|
                0 <= j < i ==> #[trigger] r@[j]@ == lines@[j * n / target as int]@,
        decreases target - i,
    {
        proof {
            assert((i as int) * (n as int) < 0x1_0000_0000_0000_0000_0000_0000_0000_0000)
                by (nonlinear_arith)
                requires
                    0 <= i < 0x1_0000_0000_0000_0000,
                    0 <= n < 0x1_0000_0000_0000_0000,
            ;
            assert((i as int) * (n as int) < (n as int) * (target as int)) by (nonlinear_arith)
                requires
                    0 <= i,
                    i < target,
                    n >= 1,
            ;
            crate::resample::lemma_div_below((i as int) * (n as int), target as int, n as int);
        }
        let idx128: u128 = (i as u128) * (n as u128) / (target as u128);
        let idx: usize = idx128 as usize;
        r.push(lines[idx].clone());
        i = i + 1;
    }
    proof {
        let lv = views_of(lines@);
        assert forall|j: int|
            0 <= j < target implies #[trigger] views_of(r@)[j] == sampled_lines(
            lv,
            target as nat,
        )[j] by {
            assert((j as int) * (n as int) < (n as int) * (target as int)) by (nonlinear_arith)
                requires
                    0 <= j,
                    j < target,
                    n >= 1,
            ;
            crate::resample::lemma_div_below(j * (n as int), target as int, n as int);
            assert(views_of(r@)[j] == r@[j]@);
            assert(sampled_lines(lv, target as nat)[j] == lv[j * n / (target as int)]);
            assert(lv[j * n / (target as int)] == lines@[j * n / (target as int)]@);
        };
        assert(views_of(r@) =~= sampled_lines(lv, target as nat));
    }
    r
}

/// The marker inserted where over-long context was cut out.
pub open spec fn omission_marker() -> Seq<char> {
    "\n\n[... omitted for length ...]\n\n"@
}

/// Over-long context clipped to roughly `max` characters while keeping
/// both ends: two fifths of the budget from the head, the rest (minus
/// the marker's allowance) from the tail, with the cut marked between.
pub open spec fn clamped_tail(v: Seq<char>, max: nat) -> Seq<char> {
    if v.len() <= max {
        v
    } else {
        let head_len = (max * 2) / 5;
        let tail_len = if head_len + 32 <= max {
            (max - head_len - 32) as nat
        } else {
            0
        };
        v.take(head_len as int) + omission_marker() + v.skip(v.len() - tail_len)
    }
}

/// Clips over-long context to the budget, preserving the head and the
/// tail around an omission marker.
pub fn clamp_context_preserving_tail(value: &str, max_chars: usize) -> (r: String)
    requires
        max_chars * 2 <= usize::MAX,
    ensures
        r@ == clamped_tail(value@, max_chars as nat),
{
    let v = str_to_chars(value);
    let total = v.len();
    if total <= max_chars {
        return chars_to_string(&v);
    }
    let head_len = (max_chars * 2) / 5;
    let tail_len = if head_len + 32 <= max_chars {
        max_chars - head_len - 32
    } else {
        0
    };
    let head = take_vec(&v, head_len);
    let tail = crate::text::skip_vec(&v, total - tail_len);
    let mut out = chars_to_string(&head);
    out.append("\n\n[... omitted for length ...]\n\n");
    let tail_s = chars_to_string(&tail);
    out.append(tail_s.as_str());
    proof {
        assert(head@ =~= v@.take(head_len as int));
        assert(out@ =~= clamped_tail(value@, max_chars as nat));
    }
    out
}

/// The transcript handed to the summarizer: one line per chosen caption;
/// when there are many, an even whole-timeline sample plus the recent
/// segment verbatim under headers; clipped to the context budget keeping
/// head and tail.
pub open spec fn spec_build_transcript(cs: Seq<CaptionEntry>) -> Seq<char> {
    let chosen = chosen_captions(cs);
    if chosen.len() == 0 {
        Seq::<char>::empty()
    } else {
        let ls = chosen.map_values(|c: CaptionEntry| summary_line(c));
        let composed = if ls.len() <= 220 {
            join_with(ls, "\n"@)
        } else {
            "Whole timeline sample (chronological):\n"@ + join_with(sampled_lines(ls, 180), "\n"@)
                + "\n\nRecent segment (verbatim, high priority):\n"@ + join_with(
                ls.skip(ls.len() - 120),
                "\n"@,
            )
        };
        clamped_tail(composed, 48000)
    }
}

/// One rendered transcript line per caption.
fn build_summary_lines(list: &Vec<CaptionEntry>) -> (r: Vec<String>)
    ensures
        views_of(r@) == list@.map_values(|c: CaptionEntry| summary_line(c)),
{
    let n = list.len();
    let mut r: Vec<String> = Vec::new();
    let mut i: usize = 0;
    while i < n
        invariant
            n == list@.len(),
            i <= n,
            r@.len() == i,
            forall|j: int| 0 <= j < i ==> #[trigger] r@[j]@ == summary_line(list@[j]),
        decreases n - i,
    {
        let c = &list[i];
        let mut line = String::from_str("[");
        line.append(c.time.as_str());
        line.append("][");
        line.append(c.source.as_str());
        line.append("] ");
        let t = trim_str(c.text.as_str());
        line.append(t.as_str());
        r.push(line);
        i = i + 1;
    }
    proof {
        assert(views_of(r@) =~~= list@.map_values(|c: CaptionEntry| summary_line(c)));
    }
    r
}

/// Builds the transcript text handed to the summarizer from a session's
/// captions: confirmed captions preferred, long sessions sampled evenly
/// with the recent segment kept verbatim, the whole clipped to budget.
pub fn build_transcript_for_summary(captions: &[CaptionEntry]) -> (r: String)
    ensures
        r@ == spec_build_transcript(captions@),
{
    let n = captions.len();
    let mut finals: Vec<CaptionEntry> = Vec::new();
    let mut i: usize = 0;
    proof {
        assert(captions@.skip(0) =~= captions@);
        assert(Seq::<CaptionEntry>::empty() + finals_of(captions@) =~= finals_of(captions@));
    }
    while i < n
        invariant
            n == captions@.len(),
            i <= n,
            finals_of(captions@) == finals@ + finals_of(captions@.skip(i as int)),
        decreases n - i,
    {
        let ghost rest = captions@.skip(i as int);
        proof {
            assert(rest[0] == captions@[i as int]);
            assert(rest.drop_first() =~= captions@.skip(i + 1));
        }
        if str_eq(captions[i].status.as_str(), "final") {
            let ghost before = finals@;
            finals.push(captions[i].clone());
            proof {
                assert(finals@ =~= before + seq![captions@[i as int]]);
                assert(before + (seq![captions@[i as int]] + finals_of(captions@.skip(i + 1)))
                    =~= finals@ + finals_of(captions@.skip(i + 1)));
            }
        }
        i = i + 1;
    }
    proof {
        assert(captions@.skip(n as int) =~= Seq::<CaptionEntry>::empty());
        assert(finals@ + Seq::<CaptionEntry>::empty() =~= finals@);
        assert(finals@ == finals_of(captions@));
    }
    let chosen: Vec<CaptionEntry> = if finals.len() == 0 {
        let mut all: Vec<CaptionEntry> = Vec::new();
        let mut k: usize = 0;
        while k < n
            invariant
                n == captions@.len(),
                k <= n,
                all@ == captions@.take(k as int),
            decreases n - k,
        {
            all.push(captions[k].clone());
            proof {
                assert(all@ =~= captions@.take(k + 1));
            }
            k = k + 1;
        }
        proof {
            assert(all@ =~= captions@);
        }
        all
    } else {
        finals
    };
    if chosen.len() == 0 {
        let r = String::new();
        proof {
            assert(r@ =~= spec_build_transcript(captions@));
        }
        return r;
    }
    let lines = build_summary_lines(&chosen);
    let composed: String = if lines.len() <= 220 {
        join_strings(&lines, "\n")
    } else {
        let sampled = sample_evenly_strings(lines.as_slice(), 180);
        let timeline = join_strings(&sampled, "\n");
        let cut = lines.len() - 120;
        let mut recent: Vec<String> = Vec::new();
        let mut k: usize = cut;
        while k < lines.len()
            invariant
                cut <= k <= lines@.len(),
                recent@.len() == k - cut,
                forall|j: int|
                    0 <= j < k - cut ==> #[trigger] recent@[j]@ == lines@[cut + j]@,
            decreases lines@.len() - k,
        {
            recent.push(lines[k].clone());
            k = k + 1;
        }
        proof {
            assert(views_of(recent@) =~~= views_of(lines@).skip(cut as int));
        }
        let recent_text = join_strings(&recent, "\n");
        let mut c = String::from_str("Whole timeline sample (chronological):\n");
        c.append(timeline.as_str());
        c.append("\n\nRecent segment (verbatim, high priority):\n");
        c.append(recent_text.as_str());
        c
    };
    let r = clamp_context_preserving_tail(composed.as_str(), 48000);
    proof {
        let ls = chosen_captions(captions@).map_values(|c: CaptionEntry| summary_line(c));
        assert(views_of(lines@) == ls);
        assert(r@ == spec_build_transcript(captions@));
    }
    r
}

} // verus!
