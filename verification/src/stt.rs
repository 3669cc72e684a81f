//! Decoding of the transcription helper's output protocol: the helper
//! writes newline-delimited JSON objects with a `type` discriminator
//! (`ready`, `error`, `transcript`) and `text` / `status` / `source`
//! fields. JSON parsing is serde_json's work, behind trusted items; the
//! classification of the extracted fields, and of the startup handshake
//! outcome, is verified here.

use vstd::prelude::*;

use crate::stream::ErrorKind;
use crate::text::{str_eq, trim_of, trim_str};

verus! {

/// How long the helper may take to signal readiness (model loading is
/// slow), in seconds.
pub const STT_STARTUP_TIMEOUT_SECS: u64 = 180;

/// What parsing a line as JSON and reading one top-level string field
/// yields: `serde_json::from_str::<Value>`, then `Value::get` with the
/// key, then `Value::as_str` — a function of the line and the key alone.
/// `None` when the line is not valid JSON, the parsed value is no map,
/// the key is absent, or the field is no string.
pub uninterp spec fn json_str_field(line: Seq<char>, key: Seq<char>) -> Option<Seq<char>>;

/// Relies on `serde_json::from_str::<Value>`, `serde_json::Value::get`
/// and `serde_json::Value::as_str`: parses the line and reads the named
/// top-level string field. serde_json is deterministic, so the result is
/// a function of the line and key alone, named by `json_str_field`.
#[verifier::external_body]
fn read_json_str_field(line: &str, key: &str) -> (r: Option<String>)
    ensures
        r is Some <==> json_str_field(line@, key@) is Some,
        r matches Some(s) ==> s@ == json_str_field(line@, key@)->Some_0,
{
    serde_json::from_str::<serde_json::Value>(line)
        .ok()
        .and_then(|v| v.get(key).and_then(|f| f.as_str()).map(|s| s.to_string()))
}

/// One decoded event of the helper's output stream.
pub enum SttOutputEvent {
    /// The startup handshake: the helper is ready for audio.
    Ready,
    /// The helper reported a fatal error, with its message.
    Error(String),
    /// A recognized transcript fragment: text (trimmed, nonempty),
    /// status (`interim` or `final`), and a speaker/source label.
    Transcript { text: String, status: String, source: String },
    /// Anything else: blank lines, unparsable lines, empty transcripts,
    /// unknown event types.
    Ignored,
}

/// The event type named by the extracted `type` field: its value, or
/// empty when the field is missing or no string.
pub open spec fn field_or_empty(f: Option<String>) -> Seq<char> {
    match f {
        Some(t) => t@,
        None => Seq::<char>::empty(),
    }
}

/// The status a transcript event carries: `interim` only when the field
/// says so, `final` otherwise.
pub open spec fn transcript_status(status: Option<String>) -> Seq<char> {
    match status {
        Some(s) => if s@ == "interim"@ {
            "interim"@
        } else {
            "final"@
        },
        None => "final"@,
    }
}

/// The source label a transcript event carries: the field when present,
/// the default label otherwise.
pub open spec fn transcript_source(source: Option<String>) -> Seq<char> {
    match source {
        Some(s) => s@,
        None => "SPK"@,
    }
}

/// Classifies one helper output object from its extracted fields: a
/// `ready` handshake, an `error` with its message (or a placeholder when
/// none came), a `transcript` with trimmed nonempty text plus status and
/// source defaults, and everything else ignored.
pub fn classify_stt_fields(
    event_type: Option<String>,
    text: Option<String>,
    status: Option<String>,
    source: Option<String>,
    message: Option<String>,
) -> (r: SttOutputEvent)
    ensures
        ({
            let ty = field_or_empty(event_type);
            &&& (ty == "ready"@ ==> r is Ready)
            &&& (ty == "error"@ ==> (r matches SttOutputEvent::Error(m) && m@ == (
            match message {
                Some(pm) => pm@,
                None => "unknown faster-whisper error"@,
            })))
            &&& (ty == "transcript"@ ==> {
                let trimmed = trim_of(field_or_empty(text));
                if trimmed.len() == 0 {
                    r is Ignored
                } else {
                    r matches SttOutputEvent::Transcript { text: t, status: st, source: src }
                        && t@ == trimmed && st@ == transcript_status(status) && src@
                        == transcript_source(source)
                }
            })
            &&& (ty != "ready"@ && ty != "error"@ && ty != "transcript"@ ==> r is Ignored)
        }),
{
    proof {
        reveal_strlit("ready");
        reveal_strlit("error");
        reveal_strlit("transcript");
        assert("ready"@.len() == 5);
        assert("error"@.len() == 5);
        assert("transcript"@.len() == 10);
        assert("ready"@[0] == 'r');
        assert("error"@[0] == 'e');
        assert("ready"@ != "error"@);
        assert("ready"@ != "transcript"@);
        assert("error"@ != "transcript"@);
    }
    let ty: String = match event_type {
        Some(t) => t,
        None => String::new(),
    };
    if str_eq(ty.as_str(), "ready") {
        return SttOutputEvent::Ready;
    }
    if str_eq(ty.as_str(), "error") {
        let m = match message {
            Some(pm) => pm,
            None => String::from_str("unknown faster-whisper error"),
        };
        return SttOutputEvent::Error(m);
    }
    if str_eq(ty.as_str(), "transcript") {
        let raw: String = match text {
            Some(t) => t,
            None => String::new(),
        };
        let trimmed = trim_str(raw.as_str());
        if trimmed.unicode_len() == 0 {
            return SttOutputEvent::Ignored;
        }
        let st: String = match status {
            Some(s) => {
                if str_eq(s.as_str(), "interim") {
                    String::from_str("interim")
                } else {
                    String::from_str("final")
                }
            },
            None => String::from_str("final"),
        };
        let src: String = match source {
            Some(s) => s,
            None => String::from_str("SPK"),
        };
        return SttOutputEvent::Transcript { text: trimmed, status: st, source: src };
    }
    SttOutputEvent::Ignored
}

/// The value of an extracted field, or empty when it is absent.
pub open spec fn field_text(f: Option<Seq<char>>) -> Seq<char> {
    match f {
        Some(t) => t,
        None => Seq::<char>::empty(),
    }
}

/// The status an extracted `status` field selects: `interim` only when
/// it says so, `final` otherwise.
pub open spec fn status_of_field(f: Option<Seq<char>>) -> Seq<char> {
    match f {
        Some(s) => if s == "interim"@ {
            "interim"@
        } else {
            "final"@
        },
        None => "final"@,
    }
}

/// The source label an extracted `source` field selects: its value, or
/// the default label.
pub open spec fn source_of_field(f: Option<Seq<char>>) -> Seq<char> {
    match f {
        Some(s) => s,
        None => "SPK"@,
    }
}

/// The event type a line names: its `type` field, or empty when the line
/// is unparsable or the field is absent.
pub open spec fn line_event_type(line: Seq<char>) -> Seq<char> {
    field_text(json_str_field(line, "type"@))
}

/// Decodes one line of helper output. A blank line is ignored; otherwise
/// the line's `type` field decides: `ready` is the handshake, `error`
/// carries its `message` (or a placeholder), `transcript` carries its
/// trimmed nonempty `text` with `status` and `source` defaults, and
/// everything else — unparsable lines included — is ignored.
pub fn decode_stt_line(line: &str) -> (r: SttOutputEvent)
    ensures
        trim_of(line@).len() == 0 ==> r is Ignored,
        trim_of(line@).len() > 0 ==> ({
            let ty = line_event_type(line@);
            &&& (ty == "ready"@ ==> r is Ready)
            &&& (ty == "error"@ ==> (r matches SttOutputEvent::Error(m) && m@ == (
            match json_str_field(line@, "message"@) {
                Some(pm) => pm,
                None => "unknown faster-whisper error"@,
            })))
            &&& (ty == "transcript"@ ==> {
                let trimmed = trim_of(field_text(json_str_field(line@, "text"@)));
                if trimmed.len() == 0 {
                    r is Ignored
                } else {
                    r matches SttOutputEvent::Transcript { text: t, status: st, source: src }
                        && t@ == trimmed && st@ == status_of_field(
                        json_str_field(line@, "status"@),
                    ) && src@ == source_of_field(json_str_field(line@, "source"@))
                }
            })
            &&& (ty != "ready"@ && ty != "error"@ && ty != "transcript"@ ==> r is Ignored)
        }),
{
    let trimmed = trim_str(line);
    if trimmed.unicode_len() == 0 {
        return SttOutputEvent::Ignored;
    }
    let event_type = read_json_str_field(line, "type");
    let text = read_json_str_field(line, "text");
    let status = read_json_str_field(line, "status");
    let source = read_json_str_field(line, "source");
    let message = read_json_str_field(line, "message");
    proof {
        assert(field_or_empty(event_type) == line_event_type(line@));
        assert(trim_of(field_or_empty(text)) == trim_of(
            field_text(json_str_field(line@, "text"@)),
        ));
        assert(transcript_status(status) == status_of_field(json_str_field(line@, "status"@)));
        assert(transcript_source(source) == source_of_field(json_str_field(line@, "source"@)));
        assert((match message {
            Some(pm) => pm@,
            None => "unknown faster-whisper error"@,
        }) == (match json_str_field(line@, "message"@) {
            Some(pm) => pm,
            None => "unknown faster-whisper error"@,
        }));
    }
    classify_stt_fields(event_type, text, status, source, message)
}

/// What the orchestrator observed while waiting for the helper's
/// startup handshake.
pub enum StartupObservation {
    /// The helper signalled `ready`.
    Ready,
    /// The helper reported an initialization error, with its message.
    Failed(String),
    /// The helper's output ended before any handshake arrived.
    HelperExited,
    /// The startup timeout elapsed with no handshake.
    TimedOut,
}

/// A fatal pipeline failure: its kind and a human-readable message.
pub struct PipelineFailure {
    pub kind: ErrorKind,
    pub message: String,
}

/// Classifies the startup handshake outcome: only a `ready` handshake
/// lets the session proceed; an error, a helper exit, or the timeout all
/// surface as a backend startup failure with a message naming the cause.
pub fn classify_startup(obs: StartupObservation) -> (r: Result<(), PipelineFailure>)
    ensures
        obs is Ready <==> r is Ok,
        r matches Err(f) ==> f.kind == ErrorKind::BackendStartupFailure,
        obs matches StartupObservation::Failed(m) ==> (r matches Err(f) && f.message@
            == "faster-whisper helper initialization failed: "@ + m@),
        obs is HelperExited ==> (r matches Err(f) && f.message@
            == "faster-whisper helper terminated before initialization completed"@),
        obs is TimedOut ==> (r matches Err(f) && f.message@
            == "timed out waiting for faster-whisper helper initialization (180s)"@),
{
    match obs {
        StartupObservation::Ready => Ok(()),
        StartupObservation::Failed(m) => {
            let mut msg = String::from_str("faster-whisper helper initialization failed: ");
            msg.append(m.as_str());
            Err(PipelineFailure { kind: ErrorKind::BackendStartupFailure, message: msg })
        },
        StartupObservation::HelperExited => Err(
            PipelineFailure {
                kind: ErrorKind::BackendStartupFailure,
                message: String::from_str(
                    "faster-whisper helper terminated before initialization completed",
                ),
            },
        ),
        StartupObservation::TimedOut => Err(
            PipelineFailure {
                kind: ErrorKind::BackendStartupFailure,
                message: String::from_str(
                    "timed out waiting for faster-whisper helper initialization (180s)",
                ),
            },
        ),
    }
}

} // verus!
