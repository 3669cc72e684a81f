//! Capture-source selection: matching a configured microphone filter
//! against enumerated device names, finding a loopback-style system-audio
//! device, and planning which capture sources a session opens. The
//! device enumeration itself is platform work; the decisions over the
//! enumerated names are made (and verified) here.

use vstd::prelude::*;

use crate::stream::ErrorKind;
use crate::text::{contains_seq, contains_vec, lower_of, str_to_chars, str_to_lowercase, trim_str};

verus! {

/// The microphone filter a configuration holds: the configured value
/// trimmed and lower-cased.
pub open spec fn mic_filter(configured: Seq<char>) -> Seq<char> {
    lower_of(crate::text::trim_of(configured))
}

/// A microphone filter that selects the default input device instead of
/// searching by name.
pub open spec fn wants_default_mic(filter: Seq<char>) -> bool {
    filter.len() == 0 || filter == "default"@
}

/// Device name `i` matches the filter (case-insensitively, by
/// substring).
pub open spec fn mic_match(names: Seq<String>, filter: Seq<char>, i: int) -> bool {
    0 <= i < names.len() && contains_seq(lower_of(names[i]@), filter)
}

/// Picks the microphone among the enumerated input device names: the
/// first whose lower-cased name contains the configured filter, or
/// nothing when the filter asks for the default device or matches no
/// name (the caller then falls back to the default input device).
pub fn pick_microphone(names: &Vec<String>, configured: &str) -> (r: Option<usize>)
    ensures
        ({
            let filter = mic_filter(configured@);
            &&& wants_default_mic(filter) ==> r is None
            &&& (r matches Some(i) ==> !wants_default_mic(filter) && mic_match(
                names@,
                filter,
                i as int,
            ) && forall|j: int| 0 <= j < i ==> !mic_match(names@, filter, j))
            &&& (!wants_default_mic(filter) && r is None ==> forall|j: int|
                0 <= j < names@.len() ==> !mic_match(names@, filter, j))
        }),
{
    let trimmed = trim_str(configured);
    let filter = str_to_lowercase(trimmed.as_str());
    let filter_chars = str_to_chars(filter.as_str());
    if filter.unicode_len() == 0 || crate::text::str_eq(filter.as_str(), "default") {
        return None;
    }
    let n = names.len();
    let mut i: usize = 0;
    while i < n
        invariant
            n == names@.len(),
            i <= n,
            filter_chars@ == mic_filter(configured@),
            !wants_default_mic(mic_filter(configured@)),
            forall|j: int| 0 <= j < i ==> !mic_match(names@, mic_filter(configured@), j),
        decreases n - i,
    {
        let lowered = str_to_lowercase(names[i].as_str());
        let lowered_chars = str_to_chars(lowered.as_str());
        if contains_vec(&lowered_chars, &filter_chars) {
            return Some(i);
        }
        i = i + 1;
    }
    None
}

/// Device `i` is a system-audio candidate: its lower-cased name differs
/// from the microphone's own (to avoid duplicate capture).
pub open spec fn sys_candidate(names: Seq<String>, mic_name: Seq<char>, i: int) -> bool {
    0 <= i < names.len() && lower_of(names[i]@) != lower_of(mic_name)
}

/// The system-audio configuration names a specific device substring
/// rather than a capture mode.
pub open spec fn custom_sys_filter(cfg: Seq<char>) -> bool {
    &&& lower_of(cfg) != "screen_capture"@
    &&& lower_of(cfg) != "virtual_audio"@
    &&& lower_of(cfg).len() > 0
}

/// Candidate `i` matches the configured device substring.
pub open spec fn sys_custom_match(names: Seq<String>, mic_name: Seq<char>, cfg: Seq<char>, i: int) -> bool {
    &&& custom_sys_filter(cfg)
    &&& sys_candidate(names, mic_name, i)
    &&& contains_seq(lower_of(names[i]@), lower_of(cfg))
}

/// A lower-cased device name that looks like a loopback capture device.
pub open spec fn is_loopback_name(lower: Seq<char>) -> bool {
    ||| contains_seq(lower, "blackhole"@)
    ||| contains_seq(lower, "loopback"@)
    ||| contains_seq(lower, "soundflower"@)
    ||| contains_seq(lower, "vb-audio"@)
    ||| contains_seq(lower, "virtual"@)
    ||| contains_seq(lower, "background music"@)
}

/// Candidate `i` carries a loopback-style device name.
pub open spec fn sys_loopback_match(names: Seq<String>, mic_name: Seq<char>, i: int) -> bool {
    sys_candidate(names, mic_name, i) && is_loopback_name(lower_of(names[i]@))
}

/// Whether the lower-cased name contains a loopback keyword.
fn loopback_name_check(lowered_chars: &Vec<char>) -> (r: bool)
    ensures
        r == is_loopback_name(lowered_chars@),
{
    let kw1 = str_to_chars("blackhole");
    let kw2 = str_to_chars("loopback");
    let kw3 = str_to_chars("soundflower");
    let kw4 = str_to_chars("vb-audio");
    let kw5 = str_to_chars("virtual");
    let kw6 = str_to_chars("background music");
    contains_vec(lowered_chars, &kw1) || contains_vec(lowered_chars, &kw2) || contains_vec(
        lowered_chars,
        &kw3,
    ) || contains_vec(lowered_chars, &kw4) || contains_vec(lowered_chars, &kw5) || contains_vec(
        lowered_chars,
        &kw6,
    )
}

/// Picks a system-audio input among the enumerated device names,
/// excluding the microphone's own: the first matching a configured
/// device substring when one is configured, otherwise the first whose
/// name looks like a loopback device; nothing when no candidate
/// matches.
pub fn pick_system_audio(names: &Vec<String>, mic_name: &str, configured: &str) -> (r: Option<
    usize,
>)
    ensures
        ({
            let nv = names@;
            let mic = mic_name@;
            let cfg = configured@;
            &&& (r matches Some(i) ==> (sys_custom_match(nv, mic, cfg, i as int) && forall|j: int|
                0 <= j < i ==> !sys_custom_match(nv, mic, cfg, j)) || ((forall|j: int|
                0 <= j < nv.len() ==> !sys_custom_match(nv, mic, cfg, j)) && sys_loopback_match(
                nv,
                mic,
                i as int,
            ) && forall|j: int| 0 <= j < i ==> !sys_loopback_match(nv, mic, j)))
            &&& (r is None ==> forall|j: int|
                0 <= j < nv.len() ==> !sys_custom_match(nv, mic, cfg, j) && !sys_loopback_match(
                    nv,
                    mic,
                    j,
                ))
        }),
{
    let n = names.len();
    let mic_lower = str_to_lowercase(mic_name);
    let cfg_lower = str_to_lowercase(configured);
    let cfg_chars = str_to_chars(cfg_lower.as_str());
    let custom = !crate::text::str_eq(cfg_lower.as_str(), "screen_capture")
        && !crate::text::str_eq(cfg_lower.as_str(), "virtual_audio") && cfg_lower.unicode_len()
        > 0;
    proof {
        assert(custom == custom_sys_filter(configured@));
    }
    if custom {
        let mut i: usize = 0;
        while i < n
            invariant
                n == names@.len(),
                custom_sys_filter(configured@),
                mic_lower@ == lower_of(mic_name@),
                cfg_chars@ == lower_of(configured@),
                i <= n,
                forall|j: int| 0 <= j < i ==> !sys_custom_match(names@, mic_name@, configured@, j),
            decreases n - i,
        {
            let lowered = str_to_lowercase(names[i].as_str());
            let lowered_chars = str_to_chars(lowered.as_str());
            if !crate::text::str_eq(lowered.as_str(), mic_lower.as_str()) && contains_vec(
                &lowered_chars,
                &cfg_chars,
            ) {
                return Some(i);
            }
            i = i + 1;
        }
    }
    let mut i: usize = 0;
    while i < n
        invariant
            n == names@.len(),
            mic_lower@ == lower_of(mic_name@),
            custom_sys_filter(configured@) ==> forall|j: int|
                0 <= j < n ==> !sys_custom_match(names@, mic_name@, configured@, j),
            i <= n,
            forall|j: int| 0 <= j < i ==> !sys_loopback_match(names@, mic_name@, j),
        decreases n - i,
    {
        let lowered = str_to_lowercase(names[i].as_str());
        let lowered_chars = str_to_chars(lowered.as_str());
        if !crate::text::str_eq(lowered.as_str(), mic_lower.as_str()) && loopback_name_check(
            &lowered_chars,
        ) {
            return Some(i);
        }
        i = i + 1;
    }
    None
}

/// How a planned capture source acquires audio.
#[derive(Clone, Copy, PartialEq, Eq, Structural, Debug)]
pub enum PlannedAcquisition {
    /// A native input device, by its index in the enumerated list.
    Device(usize),
    /// The out-of-process screen/system-audio capture helper.
    ScreenCapture,
}

/// One capture source a session will open.
#[derive(Debug)]
pub struct PlannedSource {
    /// `"MIC"` or `"SYS"`.
    pub label: &'static str,
    /// How the source acquires audio.
    pub acquisition: PlannedAcquisition,
}

/// The session opens the system-audio side through the screen-capture
/// helper when the configuration selects that mode.
pub open spec fn screen_capture_mode(cfg: Seq<char>) -> bool {
    lower_of(cfg) == "screen_capture"@
}

/// Plans the capture sources of a session: the microphone when one was
/// found, and a system-audio source (the screen-capture helper in that
/// mode, else a loopback device when one was found). A session with no
/// source at all is rejected.
pub fn plan_capture_sources(
    mic_device: Option<usize>,
    system_audio_cfg: &str,
    sys_device: Option<usize>,
) -> (r: Result<Vec<PlannedSource>, ErrorKind>)
    ensures
        ({
            let screen = screen_capture_mode(system_audio_cfg@);
            let have_sys = screen || sys_device is Some;
            &&& (r is Ok <==> (mic_device is Some || have_sys))
            &&& (r matches Err(e) ==> e == ErrorKind::NoInputSource)
            &&& (r matches Ok(v) ==> {
                let mic_n: int = if mic_device is Some {
                    1
                } else {
                    0
                };
                &&& v@.len() == mic_n + (if have_sys {
                    1int
                } else {
                    0int
                })
                &&& (mic_device matches Some(m) ==> v@[0].label@ == "MIC"@ && v@[0].acquisition
                    == PlannedAcquisition::Device(m))
                &&& (have_sys ==> v@[mic_n].label@ == "SYS"@ && v@[mic_n].acquisition == (
                if screen {
                    PlannedAcquisition::ScreenCapture
                } else {
                    PlannedAcquisition::Device(sys_device->Some_0)
                }))
            })
        }),
{
    let mut sources: Vec<PlannedSource> = Vec::new();
    match mic_device {
        Some(m) => {
            sources.push(PlannedSource { label: "MIC", acquisition: PlannedAcquisition::Device(m) });
        },
        None => {},
    }
    let cfg_lower = str_to_lowercase(system_audio_cfg);
    if crate::text::str_eq(cfg_lower.as_str(), "screen_capture") {
        sources.push(
            PlannedSource { label: "SYS", acquisition: PlannedAcquisition::ScreenCapture },
        );
    } else {
        match sys_device {
            Some(s) => {
                sources.push(
                    PlannedSource { label: "SYS", acquisition: PlannedAcquisition::Device(s) },
                );
            },
            None => {},
        }
    }
    if sources.len() == 0 {
        Err(ErrorKind::NoInputSource)
    } else {
        Ok(sources)
    }
}

} // verus!
