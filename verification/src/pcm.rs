//! Little-endian 16-bit PCM byte codec: encoding outgoing audio for the
//! transcription backend, and reassembling helper-process byte reads into
//! complete samples while carrying a partial trailing byte forward.

use vstd::prelude::*;

verus! {

use vstd::arithmetic::div_mod::lemma_fundamental_div_mod;
use vstd::arithmetic::div_mod::lemma_mod_bound;

/// The raw bit pattern of a sample, as an unsigned 16-bit word.
pub open spec fn sample_bits(s: i16) -> u16 {
    s as u16
}

/// Low (first) byte of a sample in little-endian order.
pub open spec fn sample_lo(s: i16) -> u8 {
    (sample_bits(s) & 0xff) as u8
}

/// High (second) byte of a sample in little-endian order.
pub open spec fn sample_hi(s: i16) -> u8 {
    (sample_bits(s) >> 8) as u8
}

/// The sample encoded by a little-endian byte pair.
pub open spec fn sample_of(lo: u8, hi: u8) -> i16 {
    ((lo as u16) | ((hi as u16) << 8)) as i16
}

/// Little-endian byte serialization of a whole sample sequence.
pub open spec fn le_bytes_of(s: Seq<i16>) -> Seq<u8> {
    Seq::new(2 * s.len(), |i: int| if i % 2 == 0 { sample_lo(s[i / 2]) } else { sample_hi(s[i / 2]) })
}

/// Samples decoded from the even-length prefix of a byte sequence.
pub open spec fn samples_of(b: Seq<u8>) -> Seq<i16> {
    Seq::new(b.len() / 2, |i: int| sample_of(b[2 * i], b[2 * i + 1]))
}

/// Serializes samples as raw little-endian 16-bit PCM, two bytes per
/// sample, low byte first.
pub fn pcm_i16_to_le_bytes(samples: &[i16]) -> (r: Vec<u8>)
    ensures
        r@ == le_bytes_of(samples@),
{
    let n = samples.len();
    let mut out: Vec<u8> = Vec::new();
    let mut i: usize = 0;
    while i < n
        invariant
            n == samples@.len(),
            i <= n,
            out@.len() == 2 * i,
            forall|j: int|
                0 <= j < i ==> out@[2 * j] == sample_lo(samples@[j]) && out@[2 * j + 1]
                    == sample_hi(samples@[j]),
        decreases n - i,
    {
        let s = samples[i];
        let bits: u16 = s as u16;
        let lo: u8 = (bits & 0xff) as u8;
        let hi: u8 = (bits >> 8) as u8;
        out.push(lo);
        out.push(hi);
        i = i + 1;
    }
    assert(out@ =~= le_bytes_of(samples@));
    out
}

/// The sum of `len` samples starting at `start`, as an integer.
pub open spec fn frame_sum(v: Seq<i16>, start: int, len: int) -> int
    decreases len,
{
    if len <= 0 {
        0
    } else {
        v[start] + frame_sum(v, start + 1, len - 1)
    }
}

/// Integer division truncating toward zero, as the frame average
/// computes it.
pub open spec fn tdiv(x: int, d: int) -> int {
    if x >= 0 {
        x / d
    } else {
        -((-x) / d)
    }
}

/// How many samples frame `i` of an interleaved buffer holds: the
/// channel count, except for a shorter trailing frame.
pub open spec fn frame_len(n: int, ch: int, i: int) -> int {
    if (i + 1) * ch <= n {
        ch
    } else {
        n - i * ch
    }
}

/// The mono samples of an interleaved buffer: each frame of `ch`
/// consecutive samples averaged into one (the trailing frame may be
/// shorter).
pub open spec fn mono_of(v: Seq<i16>, ch: nat) -> Seq<i16> {
    let c = if ch < 1 {
        1int
    } else {
        ch as int
    };
    let frames = (v.len() + c - 1) / c;
    Seq::new(
        frames as nat,
        |i: int| tdiv(frame_sum(v, i * c, frame_len(v.len() as int, c, i)), frame_len(v.len() as int, c, i)) as i16,
    )
}

proof fn lemma_frame_sum_bound(v: Seq<i16>, start: int, len: int)
    requires
        0 <= start,
        0 <= len,
        start + len <= v.len(),
    ensures
        -0x8000 * len <= frame_sum(v, start, len) <= 0x7fff * len,
    decreases len,
{
    if len > 0 {
        lemma_frame_sum_bound(v, start + 1, len - 1);
        assert(0x7fff * len == 0x7fff + 0x7fff * (len - 1)) by (nonlinear_arith);
        assert(-0x8000 * len == -0x8000 + -0x8000 * (len - 1)) by (nonlinear_arith);
    } else {
        assert(0x7fff * len >= 0) by (nonlinear_arith)
            requires
                len >= 0,
        ;
        assert(-0x8000 * len <= 0) by (nonlinear_arith)
            requires
                len >= 0,
        ;
    }
}

/// Extending a frame by one sample adds it to the sum.
proof fn lemma_frame_sum_snoc(v: Seq<i16>, start: int, len: int)
    requires
        0 <= start,
        0 <= len,
        start + len < v.len(),
    ensures
        frame_sum(v, start, len + 1) == frame_sum(v, start, len) + v[start + len],
    decreases len,
{
    if len > 0 {
        lemma_frame_sum_snoc(v, start + 1, len - 1);
    } else {
        assert(frame_sum(v, start, 1) == v[start] + frame_sum(v, start + 1, 0));
        assert(frame_sum(v, start + 1, 0) == 0);
        assert(frame_sum(v, start, 0) == 0);
    }
}

/// Folds an interleaved multi-channel buffer of samples to mono by
/// averaging each frame of `channels` consecutive samples (a channel
/// count of zero is treated as one).
pub fn interleaved_to_mono_i16(input: &[i16], channels: u16) -> (r: Vec<i16>)
    ensures
        r@ == mono_of(input@, channels as nat),
{
    let ch: usize = if channels < 1 {
        1
    } else {
        channels as usize
    };
    let n = input.len();
    let ghost c = ch as int;
    let frames: usize = if n % ch != 0 {
        proof {
            lemma_fundamental_div_mod(n as int, c);
            lemma_mod_bound(n as int, c);
            assert(n as int / c <= n - 1) by (nonlinear_arith)
                requires
                    c >= 1,
                    n as int == c * (n as int / c) + n as int % c,
                    1 <= n as int % c,
            ;
        }
        n / ch + 1
    } else {
        n / ch
    };
    proof {
        lemma_fundamental_div_mod(n as int, c);
        lemma_mod_bound(n as int, c);
        lemma_fundamental_div_mod(n + c - 1, c);
        lemma_mod_bound(n + c - 1, c);
        assert(frames == (n + c - 1) / c) by (nonlinear_arith)
            requires
                c >= 1,
                n as int == c * (n as int / c) + n as int % c,
                0 <= n as int % c < c,
                n + c - 1 == c * ((n + c - 1) / c) + (n + c - 1) % c,
                0 <= (n + c - 1) % c < c,
                frames == n as int / c + (if n as int % c != 0 {
                    1int
                } else {
                    0int
                }),
        ;
        if frames > 0 {
            assert(c * frames <= n + c - 1);
            assert((frames - 1) * c < n) by (nonlinear_arith)
                requires
                    c >= 1,
                    c * frames <= n + c - 1,
            ;
        }
    }
    let mut out: Vec<i16> = Vec::new();
    let mut fi: usize = 0;
    while fi < frames
        invariant
            n == input@.len(),
            ch == c,
            1 <= c <= 0xffff,
            frames == (n + c - 1) / c,
            frames >= 1 ==> (frames - 1) * c < n,
            fi <= frames,
            out@.len() == fi,
            forall|j: int|
                0 <= j < fi ==> out@[j] == tdiv(
                    frame_sum(input@, j * c, frame_len(n as int, c, j)),
                    frame_len(n as int, c, j),
                ) as i16,
        decreases frames - fi,
    {
        proof {
            vstd::arithmetic::mul::lemma_mul_inequality(fi as int, frames - 1, c);
            assert(fi * c < n);
        }
        let start: usize = fi * ch;
        let flen: usize = if n - start < ch {
            n - start
        } else {
            ch
        };
        proof {
            assert((fi + 1) * c == fi * c + c) by (nonlinear_arith);
            assert(frame_len(n as int, c, fi as int) == flen as int);
        }
        let mut sum: i32 = 0;
        let mut k: usize = 0;
        while k < flen
            invariant
                n == input@.len(),
                start + flen <= n,
                1 <= flen <= 0xffff,
                k <= flen,
                sum == frame_sum(input@, start as int, k as int),
            decreases flen - k,
        {
            proof {
                lemma_frame_sum_bound(input@, start as int, k as int);
                lemma_frame_sum_snoc(input@, start as int, k as int);
            }
            sum = sum + input[start + k] as i32;
            k = k + 1;
        }
        proof {
            lemma_frame_sum_bound(input@, start as int, flen as int);
        }
        let avg: i32 = if sum >= 0 {
            ((sum as u32) / (flen as u32)) as i32
        } else {
            -((((-sum) as u32) / (flen as u32)) as i32)
        };
        proof {
            assert(avg == tdiv(frame_sum(input@, start as int, flen as int), flen as int));
            assert(-0x8000 <= avg <= 0x7fff) by {
                let s = frame_sum(input@, start as int, flen as int);
                let f = flen as int;
                if s >= 0 {
                    assert(s / f <= 0x7fff) by (nonlinear_arith)
                        requires
                            s >= 0,
                            f >= 1,
                            s <= 0x7fff * f,
                    ;
                } else {
                    assert((-s) / f <= 0x8000) by (nonlinear_arith)
                        requires
                            -s >= 0,
                            f >= 1,
                            -s <= 0x8000 * f,
                    ;
                }
            }
        }
        out.push(avg as i16);
        fi = fi + 1;
    }
    proof {
        assert(out@ =~= mono_of(input@, channels as nat));
    }
    out
}

/// Consumes every complete little-endian byte pair in `pending` as a
/// decoded sample, leaving only a partial trailing byte (if any) behind
/// for the next read.
pub fn split_complete_samples(pending: &mut Vec<u8>) -> (r: Vec<i16>)
    ensures
        r@ == samples_of(old(pending)@),
        final(pending)@ == old(pending)@.skip(2 * (old(pending)@.len() as int / 2)),
{
    let n = pending.len();
    let complete = n / 2;
    let mut out: Vec<i16> = Vec::new();
    let mut i: usize = 0;
    while i < complete
        invariant
            n == pending@.len(),
            complete == n / 2,
            i <= complete,
            out@.len() == i,
            forall|j: int|
                0 <= j < i ==> out@[j] == sample_of(pending@[2 * j], pending@[2 * j + 1]),
        decreases complete - i,
    {
        let lo = pending[2 * i];
        let hi = pending[2 * i + 1];
        let bits: u16 = (lo as u16) | ((hi as u16) << 8);
        out.push(bits as i16);
        i = i + 1;
    }
    assert(out@ =~= samples_of(pending@));
    let ghost before = pending@;
    let rest: Option<u8> = if n % 2 == 1 {
        Some(pending[n - 1])
    } else {
        None
    };
    pending.clear();
    match rest {
        Some(b) => {
            pending.push(b);
            assert(pending@ =~= before.skip(2 * (before.len() as int / 2)));
        },
        None => {
            assert(pending@ =~= before.skip(2 * (before.len() as int / 2)));
        },
    }
    out
}

} // verus!
