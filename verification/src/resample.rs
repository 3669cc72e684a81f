//! Stateless linear-interpolation sample-rate conversion: each output
//! position is mapped back onto the source timeline and interpolated
//! between the two nearest source samples, with half-away-from-zero
//! rounding; the output length is the input length scaled by the rate
//! ratio, rounded.

use vstd::prelude::*;

verus! {

use vstd::arithmetic::div_mod::lemma_fundamental_div_mod;
use vstd::arithmetic::div_mod::lemma_mod_bound;
use vstd::arithmetic::mul::lemma_mul_inequality;

/// Division of `x` by `d > 0`, rounded half away from zero.
pub open spec fn round_div(x: int, d: int) -> int {
    if x >= 0 {
        (2 * x + d) / (2 * d)
    } else {
        -((2 * (-x) + d) / (2 * d))
    }
}

/// Number of output samples for `n` input samples converted from rate
/// `from` to rate `to`: `n * to / from` rounded half away from zero, and
/// at least one.
pub open spec fn resampled_len(n: nat, from: nat, to: nat) -> nat {
    let q = (2 * (n * to) + from) / (2 * from);
    if q < 1 {
        1
    } else {
        q
    }
}

/// The interpolated sample at output position `i`: the source position
/// `i * from / to` falls between source indices `idx` and `idx + 1`
/// (clamped to the last sample), and the sample is the linear mix of the
/// two, rounded.
pub open spec fn resampled_at(s: Seq<i16>, from: nat, to: nat, i: int) -> i16 {
    let num = i * from;
    let idx = num / (to as int);
    let rem = num % (to as int);
    let a = s[idx] as int;
    let b = (if idx + 1 < s.len() {
        s[idx + 1]
    } else {
        s[s.len() - 1]
    }) as int;
    round_div(a * to + (b - a) * rem, to as int) as i16
}

/// The resampled sequence. Degenerate inputs (empty input, equal rates,
/// a zero rate) return the input unchanged.
pub open spec fn spec_resample(s: Seq<i16>, from: nat, to: nat) -> Seq<i16> {
    if s.len() == 0 {
        Seq::<i16>::empty()
    } else if from == to || from == 0 || to == 0 {
        s
    } else {
        Seq::new(resampled_len(s.len(), from, to), |i: int| resampled_at(s, from, to, i))
    }
}

/// Resampling an empty input yields an empty output, and resampling with
/// equal source and target rates yields the input unchanged, for every
/// pair of rates.
pub proof fn lemma_resample_degenerate(s: Seq<i16>, from: nat, to: nat)
    ensures
        spec_resample(Seq::<i16>::empty(), from, to) == Seq::<i16>::empty(),
        spec_resample(s, from, from) == s,
{
}

/// Every output position maps strictly inside the source: for
/// `i < resampled_len(n, from, to)`, the source position numerator
/// `i * from` stays below `n * to`.
proof fn lemma_src_pos_in_range(n: nat, from: nat, to: nat, i: int)
    requires
        n >= 1,
        from >= 1,
        to >= 1,
        0 <= i < resampled_len(n, from, to),
    ensures
        i * from < n * to,
{
    let x = 2 * ((n * to) as int) + from;
    let d = 2 * from as int;
    let q = x / d;
    if i < q {
        lemma_fundamental_div_mod(x, d);
        lemma_mod_bound(x, d);
        assert(d * q <= x);
        lemma_mul_inequality(i + 1, q, d);
        assert((i + 1) * d <= q * d);
        assert(i * from < n * to) by (nonlinear_arith)
            requires
                (i + 1) * d <= q * d,
                d * q <= x,
                x == 2 * ((n * to) as int) + from,
                d == 2 * from as int,
                from >= 1,
        ;
    } else {
        assert(q < 1 && i == 0);
        assert(i * from < n * to) by (nonlinear_arith)
            requires
                i == 0,
                n >= 1,
                from >= 1,
                to >= 1,
        ;
    }
}

/// The output length never exceeds `n * to` samples.
proof fn lemma_rlen_bound(n: nat, from: nat, to: nat)
    requires
        n >= 1,
        from >= 1,
        to >= 1,
    ensures
        resampled_len(n, from, to) <= n * to,
{
    let x = 2 * ((n * to) as int) + from;
    let d = 2 * from as int;
    let q = x / d;
    lemma_fundamental_div_mod(x, d);
    lemma_mod_bound(x, d);
    assert(d * q <= x);
    assert((n * to) as int >= 1) by (nonlinear_arith)
        requires
            n >= 1,
            to >= 1,
    ;
    assert(q <= (n * to) as int) by (nonlinear_arith)
        requires
            d * q <= x,
            x == 2 * ((n * to) as int) + from,
            d == 2 * from as int,
            from >= 1,
            (n * to) as int >= 1,
    ;
}

/// If `x < n * t` with `t > 0`, then `x / t < n`.
pub proof fn lemma_div_below(x: int, t: int, n: int)
    requires
        t >= 1,
        0 <= x,
        x < n * t,
    ensures
        x / t < n,
{
    lemma_fundamental_div_mod(x, t);
    if x / t >= n {
        lemma_mul_inequality(n, x / t, t);
        assert(n * t <= (x / t) * t);
        assert((x / t) * t == t * (x / t)) by (nonlinear_arith);
        assert(x >= n * t);
    }
}

/// Converts a sequence of mono samples between sample rates by linear
/// interpolation. Equal rates, a zero rate, or an empty input return
/// the input unchanged.
pub fn resample_i16_mono(input: &Vec<i16>, from_rate: u32, to_rate: u32) -> (r: Vec<i16>)
    requires
        2 * (input@.len() * (to_rate as int)) + (from_rate as int) <= usize::MAX as int,
    ensures
        r@ == spec_resample(input@, from_rate as nat, to_rate as nat),
{
    let n = input.len();
    if n == 0 {
        let r: Vec<i16> = Vec::new();
        proof {
            assert(r@ =~= spec_resample(input@, from_rate as nat, to_rate as nat));
        }
        return r;
    }
    if from_rate == to_rate || from_rate == 0 || to_rate == 0 {
        let mut r: Vec<i16> = Vec::new();
        let mut i: usize = 0;
        while i < n
            invariant
                n == input@.len(),
                i <= n,
                r@ == input@.take(i as int),
            decreases n - i,
        {
            r.push(input[i]);
            proof {
                assert(r@ =~= input@.take(i + 1));
            }
            i = i + 1;
        }
        proof {
            assert(r@ =~= input@);
        }
        return r;
    }

    let from_us: usize = from_rate as usize;
    let to_us: usize = to_rate as usize;
    let ghost fromn = from_rate as nat;
    let ghost ton = to_rate as nat;
    proof {
        assert(input@.len() * (to_rate as int) >= 0) by (nonlinear_arith)
            requires
                input@.len() >= 0,
                to_rate as int >= 0,
        ;
    }
    let scaled: usize = n * to_us;
    let scaled64: u64 = scaled as u64;
    let from64: u64 = from_us as u64;
    proof {
        lemma_rlen_bound(n as nat, fromn, ton);
    }
    let q64: u64 = (2 * scaled64 + from64) / (2 * from64);
    let out_len: usize = if q64 < 1 {
        1
    } else {
        q64 as usize
    };
    proof {
        assert(out_len as nat == resampled_len(n as nat, fromn, ton));
    }

    let mut out: Vec<i16> = Vec::new();
    let mut i: usize = 0;
    while i < out_len
        invariant
            n == input@.len(),
            n >= 1,
            from_us == from_rate as int,
            to_us == to_rate as int,
            from_rate >= 1,
            to_rate >= 1,
            out_len == resampled_len(n as nat, from_rate as nat, to_rate as nat),
            2 * ((n as int) * (to_rate as int)) + (from_rate as int) <= usize::MAX as int,
            i <= out_len,
            out@.len() == i,
            forall|j: int|
                0 <= j < i ==> out@[j] == resampled_at(input@, from_rate as nat, to_rate as nat, j),
        decreases out_len - i,
    {
        proof {
            lemma_src_pos_in_range(n as nat, from_rate as nat, to_rate as nat, i as int);
            assert((i as int) * (from_rate as int) < (n as int) * (to_rate as int));
            assert((n as int) * (to_rate as int) <= usize::MAX as int);
        }
        let num: usize = i * from_us;
        let idx: usize = num / to_us;
        let rem: usize = num % to_us;
        proof {
            lemma_div_below(num as int, to_us as int, n as int);
            assert(idx < n);
        }
        let a: i64 = input[idx] as i64;
        let b: i64 = if idx + 1 < n {
            input[idx + 1] as i64
        } else {
            input[n - 1] as i64
        };
        proof {
            assert(-32768 <= a <= 32767);
            assert(-32768 <= b <= 32767);
            assert(rem < to_rate);
            assert((a as int) * (to_us as int) <= 32767 * 0x1_0000_0000 && (a as int) * (
            to_us as int) >= -32768 * 0x1_0000_0000) by (nonlinear_arith)
                requires
                    -32768 <= a <= 32767,
                    0 <= to_us as int <= 0xffff_ffff,
            ;
            assert(((b - a) as int) * (rem as int) <= 65535 * 0x1_0000_0000 && ((b - a) as int) * (
            rem as int) >= -65535 * 0x1_0000_0000) by (nonlinear_arith)
                requires
                    -65535 <= (b - a) as int <= 65535,
                    0 <= rem as int <= 0xffff_ffff,
            ;
        }
        let diff: i64 = b - a;
        let x: i64 = a * (to_us as i64) + diff * (rem as i64);
        let d: i64 = to_us as i64;
        let rounded: i64 = if x >= 0 {
            let ux: u64 = x as u64;
            let ud: u64 = d as u64;
            ((2 * ux + ud) / (2 * ud)) as i64
        } else {
            let ux: u64 = (-x) as u64;
            let ud: u64 = d as u64;
            -(((2 * ux + ud) / (2 * ud)) as i64)
        };
        proof {
            assert(rounded == round_div(x as int, d as int));
        }
        let sample: i16 = #[verifier::truncate] (rounded as i16);
        proof {
            assert(sample == resampled_at(input@, from_rate as nat, to_rate as nat, i as int));
        }
        out.push(sample);
        i = i + 1;
    }
    proof {
        assert(out@ =~= spec_resample(input@, from_rate as nat, to_rate as nat));
    }
    out
}

} // verus!
