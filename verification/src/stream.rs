//! The streaming run loops as pure state machines: each loop iteration
//! of the capture/mix/forward pipeline is a step from a state and an
//! event (a stop signal, an audio chunk, a source closing, a mixing
//! tick) to a new state and an action for the caller to perform. The
//! surrounding async select loop owns the channels and timers and feeds
//! events in; every decision is made here.

use std::collections::VecDeque;
use vstd::prelude::*;

use crate::mixer::{
    backlog_overflow, capped_backlog, consumed, extend_buffer_with_cap, mix_frame_count,
    mix_frames, mix_two_buffers, MAX_MIX_BACKLOG_FRAMES, MAX_QUEUE_DRAIN_CHUNKS, MIX_CHUNK_FRAMES,
    MIX_SAMPLE_RATE,
};
use crate::resample::{resample_i16_mono, spec_resample};

verus! {

/// The error taxonomy of the pipeline. The first three and the last are
/// fatal pre-flight or mid-stream failures; a single source's runtime
/// error is recoverable (that source is dropped, others continue).
#[derive(Clone, Copy, PartialEq, Eq, Structural, Debug)]
pub enum ErrorKind {
    /// No capture source is configured at all (fatal, pre-flight).
    NoInputSource,
    /// Every configured source failed to initialize (fatal).
    NoUsableSource,
    /// The backend process/connection could not be established or did
    /// not signal readiness within its timeout (fatal).
    BackendStartupFailure,
    /// A mid-stream backend write/read failure (fatal).
    BackendIoError,
    /// A single source's runtime error (recoverable).
    SourceDeviceError,
    /// An unknown provider or model configuration (fatal, pre-flight).
    BackendUnsupported,
}

/// The orchestrator's lifecycle states.
#[derive(Clone, Copy, PartialEq, Eq, Structural, Debug)]
pub enum StreamPhase {
    Idle,
    SourcesInitializing,
    SourcesReady,
    BackendStarting,
    Streaming,
    Draining,
    Stopped,
}

/// What the orchestrator observes between phases.
#[derive(Clone, Copy, PartialEq, Eq, Structural, Debug)]
pub enum PhaseEvent {
    /// Recording was requested with this many configured sources.
    StartRequested { configured: usize },
    /// Source setup finished with this many sources opened.
    SourcesSetUp { opened: usize },
    /// The transcription backend signalled readiness.
    BackendReady,
    /// The transcription backend failed to start.
    BackendFailed,
    /// The external stop signal fired.
    StopSignal,
    /// Every source closed and the backlogs drained empty.
    NaturalEnd,
    /// An unrecoverable backend I/O error occurred mid-stream.
    BackendIoFailed,
    /// Best-effort finalize and teardown completed.
    TeardownComplete,
}

/// The orchestrator phase table: where each event takes each phase, and
/// which fatal error (if any) it surfaces. Events that a phase does not
/// expect leave it unchanged.
pub open spec fn spec_advance_phase(phase: StreamPhase, ev: PhaseEvent) -> (
    StreamPhase,
    Option<ErrorKind>,
) {
    match (phase, ev) {
        (StreamPhase::Idle, PhaseEvent::StartRequested { configured }) => {
            if configured == 0 {
                (StreamPhase::Stopped, Some(ErrorKind::NoInputSource))
            } else {
                (StreamPhase::SourcesInitializing, None)
            }
        },
        (StreamPhase::SourcesInitializing, PhaseEvent::SourcesSetUp { opened }) => {
            if opened == 0 {
                (StreamPhase::Stopped, Some(ErrorKind::NoUsableSource))
            } else {
                (StreamPhase::SourcesReady, None)
            }
        },
        (StreamPhase::SourcesReady, PhaseEvent::BackendReady) => (StreamPhase::Streaming, None),
        (StreamPhase::SourcesReady, PhaseEvent::BackendFailed) => (
            StreamPhase::Stopped,
            Some(ErrorKind::BackendStartupFailure),
        ),
        (StreamPhase::Streaming, PhaseEvent::StopSignal) => (StreamPhase::Draining, None),
        (StreamPhase::Streaming, PhaseEvent::NaturalEnd) => (StreamPhase::Draining, None),
        (StreamPhase::Streaming, PhaseEvent::BackendIoFailed) => (
            StreamPhase::Draining,
            Some(ErrorKind::BackendIoError),
        ),
        (StreamPhase::Draining, PhaseEvent::TeardownComplete) => (StreamPhase::Stopped, None),
        (_, _) => (phase, None),
    }
}

/// Advances the orchestrator one phase transition.
pub fn advance_phase(phase: StreamPhase, ev: PhaseEvent) -> (r: (StreamPhase, Option<ErrorKind>))
    ensures
        r == spec_advance_phase(phase, ev),
{
    match (phase, ev) {
        (StreamPhase::Idle, PhaseEvent::StartRequested { configured }) => {
            if configured == 0 {
                (StreamPhase::Stopped, Some(ErrorKind::NoInputSource))
            } else {
                (StreamPhase::SourcesInitializing, None)
            }
        },
        (StreamPhase::SourcesInitializing, PhaseEvent::SourcesSetUp { opened }) => {
            if opened == 0 {
                (StreamPhase::Stopped, Some(ErrorKind::NoUsableSource))
            } else {
                (StreamPhase::SourcesReady, None)
            }
        },
        (StreamPhase::SourcesReady, PhaseEvent::BackendReady) => (StreamPhase::Streaming, None),
        (StreamPhase::SourcesReady, PhaseEvent::BackendFailed) => (
            StreamPhase::Stopped,
            Some(ErrorKind::BackendStartupFailure),
        ),
        (StreamPhase::Streaming, PhaseEvent::StopSignal) => (StreamPhase::Draining, None),
        (StreamPhase::Streaming, PhaseEvent::NaturalEnd) => (StreamPhase::Draining, None),
        (StreamPhase::Streaming, PhaseEvent::BackendIoFailed) => (
            StreamPhase::Draining,
            Some(ErrorKind::BackendIoError),
        ),
        (StreamPhase::Draining, PhaseEvent::TeardownComplete) => (StreamPhase::Stopped, None),
        (p, _) => (p, None),
    }
}

/// Keeps only the most recent chunk of a backed-up source queue:
/// already-queued chunks are drained (up to a fixed bound per poll) and
/// counted, and the newest one replaces the chunk first received.
pub fn drain_audio_backlog(queued: &mut VecDeque<Vec<i16>>, first_chunk: Vec<i16>) -> (r: (
    Vec<i16>,
    usize,
))
    ensures
        ({
            let k = if old(queued)@.len() <= MAX_QUEUE_DRAIN_CHUNKS as nat {
                old(queued)@.len() as int
            } else {
                MAX_QUEUE_DRAIN_CHUNKS as int
            };
            &&& r.1 == k
            &&& r.0@ == (if k == 0 {
                first_chunk@
            } else {
                old(queued)@[k - 1]@
            })
            &&& final(queued)@ == old(queued)@.skip(k)
        }),
{
    let mut latest = first_chunk;
    let mut dropped: usize = 0;
    let ghost k = if old(queued)@.len() <= MAX_QUEUE_DRAIN_CHUNKS as nat {
        old(queued)@.len() as int
    } else {
        MAX_QUEUE_DRAIN_CHUNKS as int
    };
    while dropped < MAX_QUEUE_DRAIN_CHUNKS && queued.len() > 0
        invariant
            k == (if old(queued)@.len() <= MAX_QUEUE_DRAIN_CHUNKS as nat {
                old(queued)@.len() as int
            } else {
                MAX_QUEUE_DRAIN_CHUNKS as int
            }),
            dropped <= k,
            queued@ == old(queued)@.skip(dropped as int),
            latest@ == (if dropped == 0 {
                first_chunk@
            } else {
                old(queued)@[dropped - 1]@
            }),
        decreases MAX_QUEUE_DRAIN_CHUNKS - dropped,
    {
        let ghost before = queued@;
        match queued.pop_front() {
            Some(chunk) => {
                latest = chunk;
                proof {
                    assert(queued@ =~= old(queued)@.skip(dropped + 1));
                }
                dropped = dropped + 1;
            },
            None => {
                proof {
                    assert(false);
                }
            },
        }
    }
    proof {
        assert(dropped == k);
    }
    (latest, dropped)
}

/// Saturating addition on counters.
pub open spec fn sat_add(a: nat, b: nat) -> nat {
    if a + b <= usize::MAX {
        (a + b) as nat
    } else {
        usize::MAX as nat
    }
}

/// A chunk short enough that resampling it from `rate` to the mix rate
/// cannot overflow the platform word size (any chunk that fits in
/// memory is).
pub open spec fn chunk_fits(len: nat, rate: u32) -> bool {
    2 * (len * (MIX_SAMPLE_RATE as nat)) + rate <= usize::MAX
}

/// State of the dual-source mixing loop.
pub struct MixLoopState {
    /// Native sample rate of the primary (microphone) source.
    pub rate_primary: u32,
    /// Native sample rate of the secondary (system-audio) source.
    pub rate_secondary: u32,
    /// Resampled primary audio awaiting mixing.
    pub buf_primary: VecDeque<i16>,
    /// Resampled secondary audio awaiting mixing.
    pub buf_secondary: VecDeque<i16>,
    /// The primary source's channel has closed.
    pub primary_closed: bool,
    /// The secondary source's channel has closed.
    pub secondary_closed: bool,
    /// Frames trimmed from the primary backlog since the last report.
    pub dropped_primary_frames: usize,
    /// Frames trimmed from the secondary backlog since the last report.
    pub dropped_secondary_frames: usize,
}

/// One event of the dual-source mixing loop.
pub enum MixLoopEvent {
    /// The external stop signal fired.
    Stop,
    /// A chunk of primary audio arrived (already backlog-drained).
    PrimaryChunk(Vec<i16>),
    /// The primary source's channel closed.
    PrimaryClosed,
    /// A chunk of secondary audio arrived (already backlog-drained).
    SecondaryChunk(Vec<i16>),
    /// The secondary source's channel closed.
    SecondaryClosed,
    /// The 20 ms mixing tick fired.
    Tick,
}

/// What the caller must do after a step of the dual-source loop.
pub enum MixLoopAction {
    /// Keep looping.
    Continue,
    /// Forward this mixed chunk to the transcription backend.
    Send(Vec<i16>),
    /// The loop is over: both sources closed and backlogs empty, or stop.
    Finish,
    /// Forward this mixed chunk, then the loop is over.
    SendThenFinish(Vec<i16>),
}

impl MixLoopState {
    /// A fresh dual-source loop state for two capture rates.
    pub fn new(rate_primary: u32, rate_secondary: u32) -> (r: MixLoopState)
        ensures
            r.rate_primary == rate_primary,
            r.rate_secondary == rate_secondary,
            r.buf_primary@ == Seq::<i16>::empty(),
            r.buf_secondary@ == Seq::<i16>::empty(),
            !r.primary_closed,
            !r.secondary_closed,
            r.dropped_primary_frames == 0,
            r.dropped_secondary_frames == 0,
    {
        MixLoopState {
            rate_primary,
            rate_secondary,
            buf_primary: VecDeque::new(),
            buf_secondary: VecDeque::new(),
            primary_closed: false,
            secondary_closed: false,
            dropped_primary_frames: 0,
            dropped_secondary_frames: 0,
        }
    }
}

/// One step of the dual-source mixing loop. A stop wins immediately; an
/// arriving chunk is resampled to the mix rate and appended to its
/// side's backlog under the frame cap; a closing source is marked; a
/// tick mixes one chunk from the backlog fronts (an exhausted or closed
/// side contributing silence) and ends the loop once both sources have
/// closed and both backlogs are empty.
pub fn mix_loop_step(st: &mut MixLoopState, ev: MixLoopEvent) -> (r: MixLoopAction)
    requires
        ev matches MixLoopEvent::PrimaryChunk(pcm) ==> chunk_fits(pcm@.len(), old(st).rate_primary),
        ev matches MixLoopEvent::SecondaryChunk(pcm) ==> chunk_fits(pcm@.len(), old(st).rate_secondary),
    ensures
        final(st).rate_primary == old(st).rate_primary,
        final(st).rate_secondary == old(st).rate_secondary,
        ev is Stop ==> r is Finish && *final(st) == *old(st),
        ev matches MixLoopEvent::PrimaryChunk(pcm) ==> {
            let resampled = spec_resample(
                pcm@,
                old(st).rate_primary as nat,
                MIX_SAMPLE_RATE as nat,
            );
            &&& r is Continue
            &&& final(st).buf_primary@ == capped_backlog(
                old(st).buf_primary@,
                resampled,
                MAX_MIX_BACKLOG_FRAMES as nat,
            )
            &&& final(st).dropped_primary_frames == sat_add(
                old(st).dropped_primary_frames as nat,
                backlog_overflow(old(st).buf_primary@, resampled, MAX_MIX_BACKLOG_FRAMES as nat),
            )
            &&& final(st).buf_secondary@ == old(st).buf_secondary@
            &&& final(st).primary_closed == old(st).primary_closed
            &&& final(st).secondary_closed == old(st).secondary_closed
        },
        ev matches MixLoopEvent::SecondaryChunk(pcm) ==> {
            let resampled = spec_resample(
                pcm@,
                old(st).rate_secondary as nat,
                MIX_SAMPLE_RATE as nat,
            );
            &&& r is Continue
            &&& final(st).buf_secondary@ == capped_backlog(
                old(st).buf_secondary@,
                resampled,
                MAX_MIX_BACKLOG_FRAMES as nat,
            )
            &&& final(st).dropped_secondary_frames == sat_add(
                old(st).dropped_secondary_frames as nat,
                backlog_overflow(old(st).buf_secondary@, resampled, MAX_MIX_BACKLOG_FRAMES as nat),
            )
            &&& final(st).buf_primary@ == old(st).buf_primary@
            &&& final(st).primary_closed == old(st).primary_closed
            &&& final(st).secondary_closed == old(st).secondary_closed
        },
        ev is PrimaryClosed ==> r is Continue && final(st).primary_closed
            && final(st).secondary_closed == old(st).secondary_closed
            && final(st).buf_primary@ == old(st).buf_primary@
            && final(st).buf_secondary@ == old(st).buf_secondary@,
        ev is SecondaryClosed ==> r is Continue && final(st).secondary_closed
            && final(st).primary_closed == old(st).primary_closed
            && final(st).buf_primary@ == old(st).buf_primary@
            && final(st).buf_secondary@ == old(st).buf_secondary@,
        ev is Tick ==> {
            let plen = old(st).buf_primary@.len();
            let slen = old(st).buf_secondary@.len();
            let frames = mix_frame_count(plen, slen, MIX_CHUNK_FRAMES as nat);
            let out = mix_frames(old(st).buf_primary@, old(st).buf_secondary@, frames);
            &&& final(st).primary_closed == old(st).primary_closed
            &&& final(st).secondary_closed == old(st).secondary_closed
            &&& (plen == 0 && slen == 0 ==> {
                &&& final(st).buf_primary@ == old(st).buf_primary@
                &&& final(st).buf_secondary@ == old(st).buf_secondary@
                &&& (if old(st).primary_closed && old(st).secondary_closed {
                    r is Finish
                } else {
                    r is Continue
                })
            })
            &&& (plen > 0 || slen > 0 ==> {
                &&& final(st).buf_primary@ == old(st).buf_primary@.skip(consumed(plen, frames))
                &&& final(st).buf_secondary@ == old(st).buf_secondary@.skip(
                    consumed(slen, frames),
                )
                &&& (if old(st).primary_closed && old(st).secondary_closed
                    && final(st).buf_primary@.len() == 0
                    && final(st).buf_secondary@.len() == 0 {
                    r matches MixLoopAction::SendThenFinish(sent) && sent@ == out
                } else {
                    r matches MixLoopAction::Send(sent) && sent@ == out
                })
            })
        },
{
    match ev {
        MixLoopEvent::Stop => MixLoopAction::Finish,
        MixLoopEvent::PrimaryChunk(pcm) => {
            let resampled = resample_i16_mono(&pcm, st.rate_primary, MIX_SAMPLE_RATE);
            let overflow = extend_buffer_with_cap(
                &mut st.buf_primary,
                resampled.as_slice(),
                MAX_MIX_BACKLOG_FRAMES,
            );
            st.dropped_primary_frames = st.dropped_primary_frames.saturating_add(overflow);
            MixLoopAction::Continue
        },
        MixLoopEvent::SecondaryChunk(pcm) => {
            let resampled = resample_i16_mono(&pcm, st.rate_secondary, MIX_SAMPLE_RATE);
            let overflow = extend_buffer_with_cap(
                &mut st.buf_secondary,
                resampled.as_slice(),
                MAX_MIX_BACKLOG_FRAMES,
            );
            st.dropped_secondary_frames = st.dropped_secondary_frames.saturating_add(overflow);
            MixLoopAction::Continue
        },
        MixLoopEvent::PrimaryClosed => {
            st.primary_closed = true;
            MixLoopAction::Continue
        },
        MixLoopEvent::SecondaryClosed => {
            st.secondary_closed = true;
            MixLoopAction::Continue
        },
        MixLoopEvent::Tick => {
            let mixed = mix_two_buffers(&mut st.buf_primary, &mut st.buf_secondary, MIX_CHUNK_FRAMES);
            let drained = st.primary_closed && st.secondary_closed && st.buf_primary.len() == 0
                && st.buf_secondary.len() == 0;
            match mixed {
                Some(out) => {
                    if drained {
                        MixLoopAction::SendThenFinish(out)
                    } else {
                        MixLoopAction::Send(out)
                    }
                },
                None => {
                    if drained {
                        MixLoopAction::Finish
                    } else {
                        MixLoopAction::Continue
                    }
                },
            }
        },
    }
}

/// With the primary side closed and empty, mixing continues from the
/// secondary backlog alone: the primary side contributes silence, so
/// each emitted sample is the clamped halved secondary sample.
pub proof fn lemma_mixing_survives_source_close(s: Seq<i16>, chunk: nat, i: int)
    requires
        s.len() > 0,
        0 <= i < mix_frame_count(0, s.len(), chunk),
    ensures
        mix_frames(Seq::<i16>::empty(), s, mix_frame_count(0, s.len(), chunk))[i]
            == crate::mixer::clamp16(crate::mixer::tdiv2(padded_at_spec(s, i))) as i16,
{
}

/// The sample the secondary backlog contributes at position `i`, as an
/// integer.
pub open spec fn padded_at_spec(s: Seq<i16>, i: int) -> int {
    crate::mixer::padded_at(s, i) as int
}

/// State of the single-source forwarding loop (no mixing).
pub struct SingleLoopState {
    /// Native sample rate of the lone capture source.
    pub source_rate: u32,
    /// Chunks dropped by backlog draining since the last report.
    pub dropped_chunks: usize,
}

/// One event of the single-source loop.
pub enum SingleLoopEvent {
    /// The external stop signal fired.
    Stop,
    /// A chunk of audio arrived, with how many queued chunks were
    /// skipped to reach it.
    Chunk(Vec<i16>, usize),
    /// The source's channel closed.
    Closed,
}

/// What the caller must do after a step of the single-source loop.
pub enum SingleLoopAction {
    /// Keep looping.
    Continue,
    /// Forward this resampled chunk to the transcription backend.
    Send(Vec<i16>),
    /// The loop is over.
    Finish,
}

/// One step of the single-source loop: a stop or a closed channel ends
/// it; an arriving chunk is resampled to the mix rate and forwarded,
/// empty resample results being skipped.
pub fn single_loop_step(st: &mut SingleLoopState, ev: SingleLoopEvent) -> (r: SingleLoopAction)
    requires
        ev matches SingleLoopEvent::Chunk(pcm, _) ==> chunk_fits(pcm@.len(), old(st).source_rate),
    ensures
        final(st).source_rate == old(st).source_rate,
        ev is Stop ==> r is Finish && *final(st) == *old(st),
        ev is Closed ==> r is Finish && *final(st) == *old(st),
        ev matches SingleLoopEvent::Chunk(pcm, skipped) ==> {
            let resampled = spec_resample(pcm@, old(st).source_rate as nat, MIX_SAMPLE_RATE as nat);
            &&& final(st).dropped_chunks == sat_add(old(st).dropped_chunks as nat, skipped as nat)
            &&& (if resampled.len() == 0 {
                r is Continue
            } else {
                r matches SingleLoopAction::Send(sent) && sent@ == resampled
            })
        },
{
    match ev {
        SingleLoopEvent::Stop => SingleLoopAction::Finish,
        SingleLoopEvent::Closed => SingleLoopAction::Finish,
        SingleLoopEvent::Chunk(pcm, skipped) => {
            st.dropped_chunks = st.dropped_chunks.saturating_add(skipped);
            let resampled = resample_i16_mono(&pcm, st.source_rate, MIX_SAMPLE_RATE);
            if resampled.len() == 0 {
                SingleLoopAction::Continue
            } else {
                SingleLoopAction::Send(resampled)
            }
        },
    }
}

} // verus!
