//! Deterministic two-source additive mixing and backlog capping: each
//! tick emits one chunk sized to the larger available backlog (capped to
//! the chunk size), substituting silence for an exhausted side, with each
//! sample the clamped average of the two widened inputs; per-source
//! accumulation buffers are trimmed from the front when they exceed a
//! configured frame cap, so staleness stays bounded at the cost of the
//! oldest audio.

use std::collections::VecDeque;
use vstd::prelude::*;

verus! {

use vstd::arithmetic::div_mod::lemma_fundamental_div_mod;
use vstd::arithmetic::mul::lemma_mul_inequality;

/// Target sample rate of the mixed stream, in hertz.
pub const MIX_SAMPLE_RATE: u32 = 16000;

/// Frames emitted per mixing tick (20 ms at the mix rate).
pub const MIX_CHUNK_FRAMES: usize = 320;

/// Longest tolerated mixing backlog, in milliseconds.
pub const MAX_MIX_BACKLOG_MS: usize = 1200;

/// Frame cap derived from the tolerated backlog duration.
pub const MAX_MIX_BACKLOG_FRAMES: usize = 19200;

/// Most already-queued chunks drained in one poll of a source channel.
pub const MAX_QUEUE_DRAIN_CHUNKS: usize = 32;

/// Division by two truncating toward zero, as the widened sample average
/// computes it.
pub open spec fn tdiv2(x: int) -> int {
    if x >= 0 {
        x / 2
    } else {
        -((-x) / 2)
    }
}

/// A value clamped into the signed 16-bit sample range.
pub open spec fn clamp16(x: int) -> int {
    if x < -0x8000 {
        -0x8000
    } else if x > 0x7fff {
        0x7fff
    } else {
        x
    }
}

/// One mixed sample: the average of the two widened samples, clamped
/// back into 16-bit range.
pub open spec fn mix_sample(a: i16, b: i16) -> i16 {
    clamp16(tdiv2(a as int + b as int)) as i16
}

/// The sample a backlog contributes at position `i`: its own sample
/// while it lasts, silence once exhausted.
pub open spec fn padded_at(q: Seq<i16>, i: int) -> i16 {
    if 0 <= i < q.len() {
        q[i]
    } else {
        0
    }
}

/// How many frames one tick emits: the larger available backlog, capped
/// to the chunk size, and at least one frame.
pub open spec fn mix_frame_count(plen: nat, slen: nat, chunk: nat) -> nat {
    let avail = if plen >= slen {
        plen
    } else {
        slen
    };
    let f = if avail <= chunk {
        avail
    } else {
        chunk
    };
    if f < 1 {
        1
    } else {
        f
    }
}

/// The mixed chunk built from the fronts of the two backlogs.
pub open spec fn mix_frames(p: Seq<i16>, s: Seq<i16>, frames: nat) -> Seq<i16> {
    Seq::new(frames, |i: int| mix_sample(padded_at(p, i), padded_at(s, i)))
}

/// The smaller of a backlog length and the emitted frame count: how many
/// samples the tick consumes from that backlog.
pub open spec fn consumed(len: nat, frames: nat) -> int {
    if len <= frames {
        len as int
    } else {
        frames as int
    }
}

/// Mixing a sample pair never wraps: the result is exactly the
/// truncated average of the two widened samples, which always lies
/// within the signed 16-bit range, so the clamp is a safety net and the
/// output cannot overflow.
pub proof fn lemma_mix_sample_in_range(a: i16, b: i16)
    ensures
        -0x8000 <= tdiv2(a as int + b as int) <= 0x7fff,
        mix_sample(a, b) as int == tdiv2(a as int + b as int),
{
}

/// Every sample of a mixed chunk lies within the signed 16-bit range,
/// with no overflow wraparound, whatever the two source sequences hold.
pub proof fn lemma_mix_output_in_range(p: Seq<i16>, s: Seq<i16>, frames: nat, i: int)
    requires
        0 <= i < frames,
    ensures
        -0x8000 <= mix_frames(p, s, frames)[i] as int <= 0x7fff,
        mix_frames(p, s, frames)[i] as int == tdiv2(
            padded_at(p, i) as int + padded_at(s, i) as int,
        ),
{
    lemma_mix_sample_in_range(padded_at(p, i), padded_at(s, i));
}

/// Emits one mixed chunk from the two backlogs, or nothing when both
/// are empty. The chunk holds the clamped per-sample average of the two
/// buffer fronts, an exhausted side contributing silence, and the
/// consumed samples are removed from each buffer.
pub fn mix_two_buffers(
    primary: &mut VecDeque<i16>,
    secondary: &mut VecDeque<i16>,
    chunk_frames: usize,
) -> (r: Option<Vec<i16>>)
    ensures
        old(primary)@.len() == 0 && old(secondary)@.len() == 0 ==> r is None && final(primary)@
            == old(primary)@ && final(secondary)@ == old(secondary)@,
        old(primary)@.len() > 0 || old(secondary)@.len() > 0 ==> {
            let frames = mix_frame_count(
                old(primary)@.len(),
                old(secondary)@.len(),
                chunk_frames as nat,
            );
            &&& r matches Some(out) && out@ == mix_frames(old(primary)@, old(secondary)@, frames)
            &&& final(primary)@ == old(primary)@.skip(consumed(old(primary)@.len(), frames))
            &&& final(secondary)@ == old(secondary)@.skip(consumed(old(secondary)@.len(), frames))
        },
{
    let plen = primary.len();
    let slen = secondary.len();
    let available = if plen >= slen {
        plen
    } else {
        slen
    };
    if available == 0 {
        return None;
    }
    let capped = if available <= chunk_frames {
        available
    } else {
        chunk_frames
    };
    let frames = if capped < 1 {
        1
    } else {
        capped
    };
    proof {
        assert(frames as nat == mix_frame_count(plen as nat, slen as nat, chunk_frames as nat));
    }
    let mut out: Vec<i16> = Vec::new();
    let mut i: usize = 0;
    while i < frames
        invariant
            plen == old(primary)@.len(),
            slen == old(secondary)@.len(),
            i <= frames,
            primary@ == old(primary)@.skip(if i <= plen {
                i as int
            } else {
                plen as int
            }),
            secondary@ == old(secondary)@.skip(if i <= slen {
                i as int
            } else {
                slen as int
            }),
            out@.len() == i,
            forall|j: int|
                0 <= j < i ==> out@[j] == mix_sample(
                    padded_at(old(primary)@, j),
                    padded_at(old(secondary)@, j),
                ),
        decreases frames - i,
    {
        let a: i16 = match primary.pop_front() {
            Some(v) => v,
            None => 0,
        };
        let b: i16 = match secondary.pop_front() {
            Some(v) => v,
            None => 0,
        };
        proof {
            assert(a == padded_at(old(primary)@, i as int));
            assert(b == padded_at(old(secondary)@, i as int));
            if i + 1 <= plen {
                assert(old(primary)@.skip(i as int).subrange(
                    1,
                    old(primary)@.skip(i as int).len() as int,
                ) =~= old(primary)@.skip(i + 1));
            }
            if i + 1 <= slen {
                assert(old(secondary)@.skip(i as int).subrange(
                    1,
                    old(secondary)@.skip(i as int).len() as int,
                ) =~= old(secondary)@.skip(i + 1));
            }
        }
        let sum: i32 = a as i32 + b as i32;
        let half: i32 = if sum >= 0 {
            ((sum as u32) / 2) as i32
        } else {
            -((((-sum) as u32) / 2) as i32)
        };
        let clamped: i32 = if half < -0x8000 {
            -0x8000
        } else if half > 0x7fff {
            0x7fff
        } else {
            half
        };
        proof {
            assert(clamped as int == clamp16(tdiv2(a as int + b as int)));
            assert(-0x8000 <= clamped <= 0x7fff);
        }
        out.push(clamped as i16);
        i = i + 1;
    }
    proof {
        assert(out@ =~= mix_frames(
            old(primary)@,
            old(secondary)@,
            mix_frame_count(plen as nat, slen as nat, chunk_frames as nat),
        ));
        assert(primary@ =~= old(primary)@.skip(consumed(plen as nat, frames as nat)));
        assert(secondary@ =~= old(secondary)@.skip(consumed(slen as nat, frames as nat)));
    }
    Some(out)
}

/// The backlog after appending a chunk under a frame cap: everything
/// kept when it fits, otherwise the newest `cap` frames (the oldest are
/// trimmed from the front, never the back).
pub open spec fn capped_backlog(before: Seq<i16>, samples: Seq<i16>, cap: nat) -> Seq<i16> {
    if samples.len() == 0 {
        before
    } else {
        let total = before + samples;
        if total.len() <= cap {
            total
        } else {
            total.skip(total.len() - cap)
        }
    }
}

/// How many frames appending a chunk under a frame cap discards.
pub open spec fn backlog_overflow(before: Seq<i16>, samples: Seq<i16>, cap: nat) -> nat {
    if samples.len() == 0 || before.len() + samples.len() <= cap {
        0
    } else {
        ((before.len() + samples.len()) - cap) as nat
    }
}

/// Feeding any number of chunks into a capped backlog never grows the
/// retained backlog beyond the cap — each feed starting at or below the
/// cap ends at or below it — and the reported drop count equals exactly
/// the number of frames discarded.
pub proof fn lemma_backlog_never_exceeds_cap(before: Seq<i16>, samples: Seq<i16>, cap: nat)
    requires
        before.len() <= cap,
    ensures
        capped_backlog(before, samples, cap).len() <= cap,
        backlog_overflow(before, samples, cap) == before.len() + samples.len() - capped_backlog(
            before,
            samples,
            cap,
        ).len(),
{
}

/// The backlog after feeding a whole sequence of chunks, starting empty.
pub open spec fn fed_backlog(chunks: Seq<Seq<i16>>, cap: nat) -> Seq<i16>
    decreases chunks.len(),
{
    if chunks.len() == 0 {
        Seq::<i16>::empty()
    } else {
        capped_backlog(fed_backlog(chunks.drop_last(), cap), chunks.last(), cap)
    }
}

/// The total drop count reported while feeding a sequence of chunks.
pub open spec fn fed_overflow(chunks: Seq<Seq<i16>>, cap: nat) -> nat
    decreases chunks.len(),
{
    if chunks.len() == 0 {
        0
    } else {
        fed_overflow(chunks.drop_last(), cap) + backlog_overflow(
            fed_backlog(chunks.drop_last(), cap),
            chunks.last(),
            cap,
        )
    }
}

/// The frames fed by a sequence of chunks.
pub open spec fn fed_total(chunks: Seq<Seq<i16>>) -> nat
    decreases chunks.len(),
{
    if chunks.len() == 0 {
        0
    } else {
        fed_total(chunks.drop_last()) + chunks.last().len()
    }
}

/// Feeding any number of chunks, however fast, never grows the retained
/// backlog beyond the cap, and the accumulated drop count equals exactly
/// the number of frames discarded (frames fed minus frames retained).
pub proof fn lemma_backlog_bounded_over_any_feed(chunks: Seq<Seq<i16>>, cap: nat)
    ensures
        fed_backlog(chunks, cap).len() <= cap,
        fed_overflow(chunks, cap) == fed_total(chunks) - fed_backlog(chunks, cap).len(),
    decreases chunks.len(),
{
    if chunks.len() > 0 {
        lemma_backlog_bounded_over_any_feed(chunks.drop_last(), cap);
        lemma_backlog_never_exceeds_cap(fed_backlog(chunks.drop_last(), cap), chunks.last(), cap);
    }
}

/// Appends resampled audio to a mixing backlog, trimming the oldest
/// frames once the buffer exceeds `max_frames`, and returns how many
/// frames were dropped.
pub fn extend_buffer_with_cap(buffer: &mut VecDeque<i16>, samples: &[i16], max_frames: usize) -> (r:
    usize)
    ensures
        final(buffer)@ == capped_backlog(old(buffer)@, samples@, max_frames as nat),
        r == backlog_overflow(old(buffer)@, samples@, max_frames as nat),
{
    let n = samples.len();
    if n == 0 {
        return 0;
    }
    let mut i: usize = 0;
    while i < n
        invariant
            n == samples@.len(),
            i <= n,
            buffer@ == old(buffer)@ + samples@.take(i as int),
        decreases n - i,
    {
        buffer.push_back(samples[i]);
        proof {
            assert(old(buffer)@ + samples@.take(i as int) + seq![samples@[i as int]] =~= old(
                buffer,
            )@ + samples@.take(i + 1));
        }
        i = i + 1;
    }
    proof {
        assert(samples@.take(n as int) =~= samples@);
    }
    let total = buffer.len();
    if total <= max_frames {
        proof {
            assert(buffer@ =~= capped_backlog(old(buffer)@, samples@, max_frames as nat));
        }
        return 0;
    }
    let overflow = total - max_frames;
    let mut k: usize = 0;
    while k < overflow
        invariant
            total == old(buffer)@.len() + samples@.len(),
            overflow == total - max_frames,
            max_frames < total,
            k <= overflow,
            buffer@ == (old(buffer)@ + samples@).skip(k as int),
        decreases overflow - k,
    {
        let ghost before_pop = buffer@;
        let popped = buffer.pop_front();
        proof {
            assert(before_pop.len() > 0);
            assert(buffer@ =~= (old(buffer)@ + samples@).skip(k + 1));
        }
        k = k + 1;
    }
    proof {
        assert(buffer@ =~= capped_backlog(old(buffer)@, samples@, max_frames as nat));
    }
    overflow
}

/// The most milliseconds of audio a frame count can represent at the mix
/// rate, the multiplication saturating at the platform word size.
pub open spec fn spec_frames_to_ms(frames: nat) -> nat {
    let scaled = if frames * 1000 <= usize::MAX {
        frames * 1000
    } else {
        usize::MAX as nat
    };
    scaled / (MIX_SAMPLE_RATE as nat)
}

/// Converts a frame count at the mix rate into milliseconds.
pub fn frames_to_ms(frames: usize) -> (r: usize)
    ensures
        r == spec_frames_to_ms(frames as nat),
{
    let limit = usize::MAX / 1000;
    let scaled: usize = if frames <= limit {
        proof {
            lemma_fundamental_div_mod(usize::MAX as int, 1000);
            assert((usize::MAX / 1000) * 1000 <= usize::MAX);
            lemma_mul_inequality(frames as int, (usize::MAX / 1000) as int, 1000);
        }
        frames * 1000
    } else {
        proof {
            lemma_mul_inequality(limit + 1, frames as int, 1000);
            lemma_fundamental_div_mod(usize::MAX as int, 1000);
            assert((limit + 1) * 1000 > usize::MAX);
        }
        usize::MAX
    };
    scaled / (MIX_SAMPLE_RATE as usize)
}

/// Which source dominates the mix over a diagnostics window.
#[derive(Clone, Copy, PartialEq, Eq, Debug)]
pub enum DominantSource {
    Mic,
    Sys,
    Balanced,
    Unknown,
}

impl DominantSource {
    /// The label under which the dominant source is logged.
    pub fn as_str(self) -> (r: &'static str)
        ensures
            self is Mic ==> r@ == "MIC"@,
            self is Sys ==> r@ == "SYS"@,
            self is Balanced ==> r@ == "BALANCED"@,
            self is Unknown ==> r@ == "UNKNOWN"@,
    {
        match self {
            DominantSource::Mic => "MIC",
            DominantSource::Sys => "SYS",
            DominantSource::Balanced => "BALANCED",
            DominantSource::Unknown => "UNKNOWN",
        }
    }
}

} // verus!
