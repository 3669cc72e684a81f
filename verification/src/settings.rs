//! Application settings and the derived transcription parameters: which
//! STT provider a configuration selects, the effective model, language
//! and chunk duration handed to the backend helper, and the settings and
//! session store paths.

use vstd::prelude::*;

use crate::text::{
    chars_to_string, normalize_key_vec, normalized_key, str_eq, str_to_chars, trim_of, trim_str,
};

verus! {

/// Application settings, as the settings collaborator persists them.
pub struct AppSettings {
    pub auto_start: bool,
    pub start_on_login: bool,
    pub notifications: bool,
    pub locale: String,
    pub stt_language: String,
    pub llm_language: String,
    pub mic_input: String,
    pub system_audio: String,
    pub noise_suppression: bool,
    pub stt_provider: String,
    pub stt_model: String,
    pub interim_results: bool,
    pub endpointing: u32,
    pub utterance_end_ms: u32,
    pub auto_delete: String,
    pub self_speaker_tag: String,
    pub self_speaker_tags: Vec<String>,
}

impl Clone for AppSettings {
    fn clone(&self) -> (r: Self)
        ensures
            r.auto_start == self.auto_start,
            r.start_on_login == self.start_on_login,
            r.notifications == self.notifications,
            r.locale == self.locale,
            r.stt_language == self.stt_language,
            r.llm_language == self.llm_language,
            r.mic_input == self.mic_input,
            r.system_audio == self.system_audio,
            r.noise_suppression == self.noise_suppression,
            r.stt_provider == self.stt_provider,
            r.stt_model == self.stt_model,
            r.interim_results == self.interim_results,
            r.endpointing == self.endpointing,
            r.utterance_end_ms == self.utterance_end_ms,
            r.auto_delete == self.auto_delete,
            r.self_speaker_tag == self.self_speaker_tag,
            r.self_speaker_tags@ == self.self_speaker_tags@,
    {
        let tags = self.self_speaker_tags.clone();
        proof {
            assert(tags@ =~= self.self_speaker_tags@);
        }
        AppSettings {
            auto_start: self.auto_start,
            start_on_login: self.start_on_login,
            notifications: self.notifications,
            locale: self.locale.clone(),
            stt_language: self.stt_language.clone(),
            llm_language: self.llm_language.clone(),
            mic_input: self.mic_input.clone(),
            system_audio: self.system_audio.clone(),
            noise_suppression: self.noise_suppression,
            stt_provider: self.stt_provider.clone(),
            stt_model: self.stt_model.clone(),
            interim_results: self.interim_results,
            endpointing: self.endpointing,
            utterance_end_ms: self.utterance_end_ms,
            auto_delete: self.auto_delete.clone(),
            self_speaker_tag: self.self_speaker_tag.clone(),
            self_speaker_tags: tags,
        }
    }
}

impl Default for AppSettings {
    /// The defaults used when no settings file exists.
    fn default() -> (r: Self)
        ensures
            !r.auto_start,
            r.start_on_login,
            r.notifications,
            r.locale@ == "en"@,
            r.stt_language@ == "en"@,
            r.llm_language@ == "en"@,
            r.mic_input@ == "default"@,
            r.system_audio@ == "screen_capture"@,
            r.noise_suppression,
            r.stt_provider@ == Seq::<char>::empty(),
            r.stt_model@ == "nova-3"@,
            r.interim_results,
            r.endpointing == 300,
            r.utterance_end_ms == 0,
            r.auto_delete@ == "30days"@,
            r.self_speaker_tag@ == Seq::<char>::empty(),
            r.self_speaker_tags@ == Seq::<String>::empty(),
    {
        AppSettings {
            auto_start: false,
            start_on_login: true,
            notifications: true,
            locale: String::from_str("en"),
            stt_language: String::from_str("en"),
            llm_language: String::from_str("en"),
            mic_input: String::from_str("default"),
            system_audio: String::from_str("screen_capture"),
            noise_suppression: true,
            stt_provider: String::new(),
            stt_model: String::from_str("nova-3"),
            interim_results: true,
            endpointing: 300,
            utterance_end_ms: 0,
            auto_delete: String::from_str("30days"),
            self_speaker_tag: String::new(),
            self_speaker_tags: Vec::new(),
        }
    }
}

impl AppSettings {
    /// Where the settings file lives under the platform configuration
    /// directory.
    pub fn settings_path(config_dir: &str) -> (r: String)
        ensures
            r@ == config_dir@ + "/kanpe/settings.json"@,
    {
        let mut r = String::new();
        r.append(config_dir);
        r.append("/kanpe/settings.json");
        r
    }
}

/// Where the session store lives under the platform configuration
/// directory.
pub fn sessions_path(config_dir: &str) -> (r: String)
    ensures
        r@ == config_dir@ + "/kanpe/sessions.json"@,
{
    let mut r = String::new();
    r.append(config_dir);
    r.append("/kanpe/sessions.json");
    r
}

/// The status of each capability the recorder needs.
pub struct PermissionStatus {
    pub microphone: String,
    pub screen_audio: String,
    pub overlay: String,
}

impl Clone for PermissionStatus {
    fn clone(&self) -> (r: Self)
        ensures
            r == *self,
    {
        PermissionStatus {
            microphone: self.microphone.clone(),
            screen_audio: self.screen_audio.clone(),
            overlay: self.overlay.clone(),
        }
    }
}

/// The transcription backends the pipeline can drive.
#[derive(Clone, Copy, PartialEq, Eq, Structural, Debug)]
pub enum SttProvider {
    FasterWhisper,
}

/// The provider label a configuration names: the configured value
/// trimmed, or the default provider when none is configured.
pub open spec fn provider_label(settings: AppSettings) -> Seq<char> {
    if trim_of(settings.stt_provider@).len() == 0 {
        "faster-whisper"@
    } else {
        trim_of(settings.stt_provider@)
    }
}

impl SttProvider {
    /// Selects the transcription backend that the settings name,
    /// comparing case-insensitively with underscores as dashes; an
    /// unknown provider is rejected.
    pub fn from_settings(settings: &AppSettings) -> (r: Result<Self, String>)
        ensures
            normalized_key(provider_label(*settings)) == "faster-whisper"@ <==> (r matches Ok(p)
                && p is FasterWhisper),
            r matches Err(m) ==> m@ == "Unsupported STT provider '"@ + provider_label(*settings)
                + "'. Supported providers: faster-whisper"@,
    {
        let trimmed = trim_str(settings.stt_provider.as_str());
        let raw: String = if trimmed.unicode_len() == 0 {
            String::from_str("faster-whisper")
        } else {
            trimmed
        };
        let raw_chars = str_to_chars(raw.as_str());
        let normalized = normalize_key_vec(&raw_chars);
        let normalized_s = chars_to_string(&normalized);
        if str_eq(normalized_s.as_str(), "faster-whisper") {
            Ok(SttProvider::FasterWhisper)
        } else {
            let mut m = String::from_str("Unsupported STT provider '");
            m.append(raw.as_str());
            m.append("'. Supported providers: faster-whisper");
            Err(m)
        }
    }

    /// The label under which this provider is configured and logged.
    pub fn as_str(self) -> (r: &'static str)
        ensures
            r@ == "faster-whisper"@,
    {
        match self {
            SttProvider::FasterWhisper => "faster-whisper",
        }
    }
}

/// The chunk duration handed to the backend helper: the configured
/// utterance-end interval clamped to 1–5 seconds, one second when
/// unset.
pub open spec fn spec_effective_chunk_ms(settings: AppSettings) -> u32 {
    if settings.utterance_end_ms == 0 {
        1000
    } else if settings.utterance_end_ms < 1000 {
        1000
    } else if settings.utterance_end_ms > 5000 {
        5000
    } else {
        settings.utterance_end_ms
    }
}

/// The chunk duration in milliseconds for the transcription helper.
pub fn effective_chunk_ms(settings: &AppSettings) -> (r: u32)
    ensures
        r == spec_effective_chunk_ms(*settings),
{
    if settings.utterance_end_ms == 0 {
        return 1000;
    }
    if settings.utterance_end_ms < 1000 {
        1000
    } else if settings.utterance_end_ms > 5000 {
        5000
    } else {
        settings.utterance_end_ms
    }
}

/// The language code handed to the backend: the configured one trimmed,
/// or the default when blank.
pub open spec fn spec_effective_stt_language(settings: AppSettings) -> Seq<char> {
    if trim_of(settings.stt_language@).len() == 0 {
        "en"@
    } else {
        trim_of(settings.stt_language@)
    }
}

/// The transcription language for the backend helper.
pub fn effective_stt_language(settings: &AppSettings) -> (r: String)
    ensures
        r@ == spec_effective_stt_language(*settings),
{
    let trimmed = trim_str(settings.stt_language.as_str());
    if trimmed.unicode_len() == 0 {
        String::from_str("en")
    } else {
        trimmed
    }
}

/// A legacy cloud-model name that the local transcription helper cannot
/// load.
pub open spec fn is_legacy_model(s: Seq<char>) -> bool {
    ||| s == "nova"@
    ||| s == "nova-2"@
    ||| s == "nova-2-general"@
    ||| s == "nova-2-meeting"@
    ||| s == "nova-2-phonecall"@
    ||| s == "nova-2-finance"@
    ||| s == "nova-2-conversationalai"@
    ||| s == "nova-2-voicemail"@
    ||| s == "nova-3"@
}

/// The model name a configuration and environment select, before the
/// legacy check: the configured model, else the environment override,
/// else the default.
pub open spec fn model_candidate(settings: AppSettings, env_model: Option<&str>) -> Seq<char> {
    if trim_of(settings.stt_model@).len() > 0 {
        trim_of(settings.stt_model@)
    } else if env_model matches Some(e) && trim_of(e@).len() > 0 {
        trim_of(env_model->Some_0@)
    } else {
        "small"@
    }
}

/// The model handed to the transcription helper: the candidate, with
/// legacy cloud models (compared case-insensitively, underscores as
/// dashes) mapped back to the default local model.
pub open spec fn spec_effective_stt_model(settings: AppSettings, env_model: Option<&str>) -> Seq<
    char,
> {
    let candidate = model_candidate(settings, env_model);
    if is_legacy_model(normalized_key(candidate)) {
        "small"@
    } else {
        candidate
    }
}

/// Picks the model for the transcription helper from the settings and
/// an optional environment override, replacing incompatible legacy
/// model names with the default.
pub fn effective_stt_model(settings: &AppSettings, env_model: Option<&str>) -> (r: String)
    ensures
        r@ == spec_effective_stt_model(*settings, env_model),
{
    let trimmed = trim_str(settings.stt_model.as_str());
    let candidate: String = if trimmed.unicode_len() > 0 {
        trimmed
    } else {
        let from_env: Option<String> = match env_model {
            Some(e) => {
                let t = trim_str(e);
                if t.unicode_len() > 0 {
                    Some(t)
                } else {
                    None
                }
            },
            None => None,
        };
        match from_env {
            Some(t) => t,
            None => String::from_str("small"),
        }
    };
    let cand_chars = str_to_chars(candidate.as_str());
    let normalized = chars_to_string(&normalize_key_vec(&cand_chars));
    let legacy = str_eq(normalized.as_str(), "nova") || str_eq(normalized.as_str(), "nova-2")
        || str_eq(normalized.as_str(), "nova-2-general") || str_eq(
        normalized.as_str(),
        "nova-2-meeting",
    ) || str_eq(normalized.as_str(), "nova-2-phonecall") || str_eq(
        normalized.as_str(),
        "nova-2-finance",
    ) || str_eq(normalized.as_str(), "nova-2-conversationalai") || str_eq(
        normalized.as_str(),
        "nova-2-voicemail",
    ) || str_eq(normalized.as_str(), "nova-3");
    if legacy {
        String::from_str("small")
    } else {
        candidate
    }
}

} // verus!
