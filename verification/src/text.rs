//! Character-level text utilities shared by the caption, settings and
//! AI-output modules: whitespace trimming and normalization, substring
//! search, line splitting, joining, and decimal rendering, all specified
//! over `Seq<char>` views.

use vstd::prelude::*;

verus! {

/// A Unicode white-space character, the set recognized by
/// `char::is_whitespace`.
pub open spec fn is_ws(c: char) -> bool {
    let n = c as int;
    n == 9 || n == 10 || n == 11 || n == 12 || n == 13 || n == 32 || n == 0x85 || n == 0xA0 || n
        == 0x1680 || (0x2000 <= n <= 0x200A) || n == 0x2028 || n == 0x2029 || n == 0x202F || n
        == 0x205F || n == 0x3000
}

/// An ASCII white-space character, the set recognized by
/// `u8::is_ascii_whitespace`.
pub open spec fn is_ascii_ws(c: char) -> bool {
    let n = c as int;
    n == 9 || n == 10 || n == 12 || n == 13 || n == 32
}

/// An ASCII decimal digit.
pub open spec fn is_digit(c: char) -> bool {
    48 <= c as int <= 57
}

pub fn is_ws_char(c: char) -> (r: bool)
    ensures
        r == is_ws(c),
{
    let n = c as u32;
    n == 9 || n == 10 || n == 11 || n == 12 || n == 13 || n == 32 || n == 0x85 || n == 0xA0 || n
        == 0x1680 || (0x2000 <= n && n <= 0x200A) || n == 0x2028 || n == 0x2029 || n == 0x202F || n
        == 0x205F || n == 0x3000
}

pub fn is_ascii_ws_char(c: char) -> (r: bool)
    ensures
        r == is_ascii_ws(c),
{
    let n = c as u32;
    n == 9 || n == 10 || n == 12 || n == 13 || n == 32
}

pub fn is_digit_char(c: char) -> (r: bool)
    ensures
        r == is_digit(c),
{
    let n = c as u32;
    48 <= n && n <= 57
}

/// Relies on `String::push`: appends one character to the string.
#[verifier::external_body]
pub(crate) fn push_char(s: &mut String, c: char)
    ensures
        final(s)@ == old(s)@.push(c),
{
    s.push(c)
}

/// The characters of a string slice, as a vector.
pub fn str_to_chars(s: &str) -> (v: Vec<char>)
    ensures
        v@ == s@,
{
    let n = s.unicode_len();
    let mut v: Vec<char> = Vec::new();
    let mut i: usize = 0;
    while i < n
        invariant
            n == s@.len(),
            i <= n,
            v@ == s@.take(i as int),
        decreases n - i,
    {
        let c = s.get_char(i);
        v.push(c);
        proof {
            assert(v@ =~= s@.take(i + 1));
        }
        i = i + 1;
    }
    proof {
        assert(v@ =~= s@);
    }
    v
}

/// A string holding exactly the given characters.
pub fn chars_to_string(v: &Vec<char>) -> (s: String)
    ensures
        s@ == v@,
{
    let mut s = String::new();
    let n = v.len();
    let mut i: usize = 0;
    while i < n
        invariant
            n == v@.len(),
            i <= n,
            s@ == v@.take(i as int),
        decreases n - i,
    {
        push_char(&mut s, v[i]);
        proof {
            assert(s@ =~= v@.take(i + 1));
        }
        i = i + 1;
    }
    proof {
        assert(s@ =~= v@);
    }
    s
}

/// Whether two string slices hold the same characters.
pub fn str_eq(a: &str, b: &str) -> (r: bool)
    ensures
        r == (a@ == b@),
{
    let na = a.unicode_len();
    let nb = b.unicode_len();
    if na != nb {
        return false;
    }
    let mut i: usize = 0;
    while i < na
        invariant
            na == a@.len(),
            na == b@.len(),
            i <= na,
            forall|j: int| 0 <= j < i ==> a@[j] == b@[j],
        decreases na - i,
    {
        if a.get_char(i) != b.get_char(i) {
            return false;
        }
        i = i + 1;
    }
    proof {
        assert(a@ =~= b@);
    }
    true
}

/// The sequence with leading white space removed.
pub open spec fn trim_start_of(s: Seq<char>) -> Seq<char>
    decreases s.len(),
{
    if s.len() > 0 && is_ws(s[0]) {
        trim_start_of(s.drop_first())
    } else {
        s
    }
}

/// The sequence with trailing white space removed.
pub open spec fn trim_end_of(s: Seq<char>) -> Seq<char>
    decreases s.len(),
{
    if s.len() > 0 && is_ws(s.last()) {
        trim_end_of(s.drop_last())
    } else {
        s
    }
}

/// The sequence with leading and trailing white space removed.
pub open spec fn trim_of(s: Seq<char>) -> Seq<char> {
    trim_end_of(trim_start_of(s))
}

pub proof fn lemma_trim_start_len(s: Seq<char>)
    ensures
        trim_start_of(s).len() <= s.len(),
    decreases s.len(),
{
    if s.len() > 0 && is_ws(s[0]) {
        lemma_trim_start_len(s.drop_first());
    }
}

/// If the first `i` characters are white space, trimming the front skips
/// at least them.
proof fn lemma_trim_start_skip(s: Seq<char>, i: int)
    requires
        0 <= i <= s.len(),
        forall|j: int| 0 <= j < i ==> is_ws(s[j]),
    ensures
        trim_start_of(s) == trim_start_of(s.skip(i)),
    decreases i,
{
    if i > 0 {
        assert(s.drop_first() =~= s.skip(1));
        lemma_trim_start_skip(s.skip(1), i - 1);
        assert(s.skip(1).skip(i - 1) =~= s.skip(i));
    } else {
        assert(s.skip(0) =~= s);
    }
}

/// A sequence that does not start with white space trims (at the front)
/// to itself.
proof fn lemma_trim_start_noop(s: Seq<char>)
    requires
        s.len() == 0 || !is_ws(s[0]),
    ensures
        trim_start_of(s) == s,
{
}

/// If the last `s.len() - i` characters are white space, trimming the
/// back cuts at least down to `i`.
proof fn lemma_trim_end_take(s: Seq<char>, i: int)
    requires
        0 <= i <= s.len(),
        forall|j: int| i <= j < s.len() ==> is_ws(s[j]),
    ensures
        trim_end_of(s) == trim_end_of(s.take(i)),
    decreases s.len() - i,
{
    if i < s.len() {
        assert(is_ws(s.last()));
        assert(s.drop_last() =~= s.take(s.len() - 1));
        lemma_trim_end_take(s.take(s.len() - 1), i);
        assert(s.take(s.len() - 1).take(i) =~= s.take(i));
    } else {
        assert(s.take(i) =~= s);
    }
}

proof fn lemma_trim_end_noop(s: Seq<char>)
    requires
        s.len() == 0 || !is_ws(s.last()),
    ensures
        trim_end_of(s) == s,
{
}

/// The characters with leading white space removed.
pub fn trim_start_vec(v: &Vec<char>) -> (r: Vec<char>)
    ensures
        r@ == trim_start_of(v@),
{
    let n = v.len();
    let mut i: usize = 0;
    while i < n && is_ws_char(v[i])
        invariant
            n == v@.len(),
            i <= n,
            forall|j: int| 0 <= j < i ==> is_ws(v@[j]),
        decreases n - i,
    {
        i = i + 1;
    }
    let mut r: Vec<char> = Vec::new();
    let mut k: usize = i;
    while k < n
        invariant
            n == v@.len(),
            i <= k <= n,
            r@ == v@.subrange(i as int, k as int),
        decreases n - k,
    {
        r.push(v[k]);
        proof {
            assert(r@ =~= v@.subrange(i as int, k + 1));
        }
        k = k + 1;
    }
    proof {
        lemma_trim_start_skip(v@, i as int);
        if i < n {
            lemma_trim_start_noop(v@.skip(i as int));
        } else {
            assert(v@.skip(i as int) =~= Seq::<char>::empty());
        }
        assert(r@ =~= v@.skip(i as int));
    }
    r
}

/// The characters with trailing white space removed.
pub fn trim_end_vec(v: &Vec<char>) -> (r: Vec<char>)
    ensures
        r@ == trim_end_of(v@),
{
    let n = v.len();
    let mut e: usize = n;
    while e > 0 && is_ws_char(v[e - 1])
        invariant
            n == v@.len(),
            e <= n,
            forall|j: int| e <= j < n ==> is_ws(v@[j]),
        decreases e,
    {
        e = e - 1;
    }
    let mut r: Vec<char> = Vec::new();
    let mut k: usize = 0;
    while k < e
        invariant
            n == v@.len(),
            e <= n,
            k <= e,
            r@ == v@.subrange(0, k as int),
        decreases e - k,
    {
        r.push(v[k]);
        proof {
            assert(r@ =~= v@.subrange(0, k + 1));
        }
        k = k + 1;
    }
    proof {
        lemma_trim_end_take(v@, e as int);
        if e > 0 {
            lemma_trim_end_noop(v@.take(e as int));
        } else {
            assert(v@.take(0) =~= Seq::<char>::empty());
        }
        assert(r@ =~= v@.take(e as int));
    }
    r
}

/// The characters with leading and trailing white space removed.
pub fn trim_vec(v: &Vec<char>) -> (r: Vec<char>)
    ensures
        r@ == trim_of(v@),
{
    let s = trim_start_vec(v);
    trim_end_vec(&s)
}

/// The string slice trimmed of leading and trailing white space.
pub fn trim_str(s: &str) -> (r: String)
    ensures
        r@ == trim_of(s@),
{
    let v = str_to_chars(s);
    let t = trim_vec(&v);
    chars_to_string(&t)
}

/// One step of white-space normalization: state is the output so far and
/// whether a separating space is pending.
pub open spec fn norm_ws_step(st: (Seq<char>, bool), c: char) -> (Seq<char>, bool) {
    if is_ws(c) {
        (st.0, true)
    } else {
        (
            if st.1 && st.0.len() > 0 {
                st.0.push(' ').push(c)
            } else {
                st.0.push(c)
            },
            false,
        )
    }
}

/// Normalization state after the first `i` characters of `s`.
pub open spec fn norm_ws_prefix(s: Seq<char>, i: int) -> (Seq<char>, bool)
    decreases i,
{
    if i <= 0 {
        (Seq::<char>::empty(), false)
    } else {
        norm_ws_step(norm_ws_prefix(s, i - 1), s[i - 1])
    }
}

/// The white-space-normalized form of a sequence: maximal runs of
/// non-white-space characters joined by single spaces, no leading or
/// trailing space (`split_whitespace` joined with `" "`).
pub open spec fn normalized_ws(s: Seq<char>) -> Seq<char> {
    norm_ws_prefix(s, s.len() as int).0
}

/// The white-space-normalized form of the characters.
pub fn normalize_ws_vec(v: &Vec<char>) -> (r: Vec<char>)
    ensures
        r@ == normalized_ws(v@),
{
    let n = v.len();
    let mut out: Vec<char> = Vec::new();
    let mut pending: bool = false;
    let mut i: usize = 0;
    while i < n
        invariant
            n == v@.len(),
            i <= n,
            (out@, pending) == norm_ws_prefix(v@, i as int),
        decreases n - i,
    {
        let c = v[i];
        if is_ws_char(c) {
            pending = true;
        } else {
            if pending && out.len() > 0 {
                out.push(' ');
            }
            out.push(c);
            pending = false;
        }
        i = i + 1;
    }
    out
}

/// The needle occurs in the haystack starting at position `k`.
pub open spec fn occurs_at(hay: Seq<char>, needle: Seq<char>, k: int) -> bool {
    0 <= k && k + needle.len() <= hay.len() && hay.subrange(k, k + needle.len() as int) == needle
}

/// The needle occurs somewhere in the haystack (`str::contains`).
pub open spec fn contains_seq(hay: Seq<char>, needle: Seq<char>) -> bool {
    exists|k: int| occurs_at(hay, needle, k)
}

/// The sequence begins with the given prefix (`str::starts_with`).
pub open spec fn starts_with_seq(s: Seq<char>, p: Seq<char>) -> bool {
    p.len() <= s.len() && s.subrange(0, p.len() as int) == p
}

/// Whether the needle occurs in the haystack.
pub fn contains_vec(hay: &Vec<char>, needle: &Vec<char>) -> (r: bool)
    ensures
        r == contains_seq(hay@, needle@),
{
    let nh = hay.len();
    let nn = needle.len();
    if nn > nh {
        proof {
            assert(forall|k: int| !occurs_at(hay@, needle@, k));
        }
        return false;
    }
    if nn == 0 {
        proof {
            assert(hay@.subrange(0, 0) =~= needle@);
            assert(occurs_at(hay@, needle@, 0));
        }
        return true;
    }
    let mut k: usize = 0;
    while k <= nh - nn
        invariant
            nh == hay@.len(),
            nn == needle@.len(),
            1 <= nn <= nh,
            k <= nh - nn + 1,
            forall|j: int| 0 <= j < k ==> !occurs_at(hay@, needle@, j),
        decreases nh - nn - k + 1,
    {
        let mut i: usize = 0;
        let mut hit: bool = true;
        while i < nn
            invariant
                nh == hay@.len(),
                nn == needle@.len(),
                k + nn <= nh,
                i <= nn,
                hit ==> forall|j: int| 0 <= j < i ==> hay@[k + j] == needle@[j],
                !hit ==> !occurs_at(hay@, needle@, k as int),
            decreases nn - i,
        {
            if hay[k + i] != needle[i] {
                proof {
                    assert(hay@.subrange(k as int, k + nn as int)[i as int] != needle@[i as int]);
                }
                hit = false;
                i = nn;
            } else {
                i = i + 1;
            }
        }
        if hit {
            proof {
                assert(hay@.subrange(k as int, k + nn as int) =~= needle@);
                assert(occurs_at(hay@, needle@, k as int));
            }
            return true;
        }
        k = k + 1;
    }
    proof {
        assert(forall|j: int| occurs_at(hay@, needle@, j) ==> 0 <= j <= nh - nn);
    }
    false
}

/// Whether the sequence begins with the given prefix.
pub fn starts_with_vec(v: &Vec<char>, p: &Vec<char>) -> (r: bool)
    ensures
        r == starts_with_seq(v@, p@),
{
    let np = p.len();
    if np > v.len() {
        return false;
    }
    let mut i: usize = 0;
    while i < np
        invariant
            np == p@.len(),
            np <= v@.len(),
            i <= np,
            forall|j: int| 0 <= j < i ==> v@[j] == p@[j],
        decreases np - i,
    {
        if v[i] != p[i] {
            proof {
                assert(v@.subrange(0, np as int)[i as int] != p@[i as int]);
            }
            return false;
        }
        i = i + 1;
    }
    proof {
        assert(v@.subrange(0, np as int) =~= p@);
    }
    true
}

/// One step of line splitting: state is the finished lines and the
/// current line under construction.
pub open spec fn lines_step(st: (Seq<Seq<char>>, Seq<char>), c: char) -> (Seq<Seq<char>>, Seq<char>) {
    if c == '\n' {
        (st.0.push(strip_trailing_cr(st.1)), Seq::<char>::empty())
    } else {
        (st.0, st.1.push(c))
    }
}

/// Drops one trailing carriage return, so that `\r\n` endings behave as
/// `\n` (`str::lines`).
pub open spec fn strip_trailing_cr(l: Seq<char>) -> Seq<char> {
    if l.len() > 0 && l.last() == '\r' {
        l.drop_last()
    } else {
        l
    }
}

/// Line-splitting state after the first `i` characters of `s`.
pub open spec fn lines_prefix(s: Seq<char>, i: int) -> (Seq<Seq<char>>, Seq<char>)
    decreases i,
{
    if i <= 0 {
        (Seq::<Seq<char>>::empty(), Seq::<char>::empty())
    } else {
        lines_step(lines_prefix(s, i - 1), s[i - 1])
    }
}

/// The lines of a sequence, as `str::lines` splits them: separated by
/// `\n` or `\r\n`, with an optional final line ending producing no empty
/// trailing line.
pub open spec fn lines_of(s: Seq<char>) -> Seq<Seq<char>> {
    let st = lines_prefix(s, s.len() as int);
    if st.1.len() > 0 {
        st.0.push(st.1)
    } else {
        st.0
    }
}

/// The lines of the characters, as vectors.
pub fn lines_vec(v: &Vec<char>) -> (r: Vec<Vec<char>>)
    ensures
        r.deep_view() == lines_of(v@),
{
    let n = v.len();
    let mut done: Vec<Vec<char>> = Vec::new();
    let mut cur: Vec<char> = Vec::new();
    let mut i: usize = 0;
    while i < n
        invariant
            n == v@.len(),
            i <= n,
            done.deep_view() == lines_prefix(v@, i as int).0,
            cur@ == lines_prefix(v@, i as int).1,
        decreases n - i,
    {
        let c = v[i];
        let ghost old_done = done.deep_view();
        let ghost old_cur = cur@;
        if c == '\n' {
            if cur.len() > 0 && cur[cur.len() - 1] == '\r' {
                cur.pop();
            }
            proof {
                assert(cur@ == strip_trailing_cr(old_cur));
            }
            done.push(cur);
            cur = Vec::new();
            proof {
                assert(done.deep_view() =~~= old_done.push(strip_trailing_cr(old_cur)));
                assert(done.deep_view() =~~= lines_prefix(v@, i + 1).0);
            }
        } else {
            cur.push(c);
            proof {
                assert(done.deep_view() =~~= lines_prefix(v@, i + 1).0);
            }
        }
        i = i + 1;
    }
    if cur.len() > 0 {
        let ghost old_done = done.deep_view();
        let ghost old_cur = cur@;
        done.push(cur);
        proof {
            assert(done.deep_view() =~~= old_done.push(old_cur));
            assert(done.deep_view() =~~= lines_of(v@));
        }
    } else {
        proof {
            assert(done.deep_view() =~~= lines_of(v@));
        }
    }
    done
}

/// The parts joined with the separator between consecutive parts.
pub open spec fn join_with(parts: Seq<Seq<char>>, sep: Seq<char>) -> Seq<char>
    decreases parts.len(),
{
    if parts.len() == 0 {
        Seq::<char>::empty()
    } else if parts.len() == 1 {
        parts[0]
    } else {
        join_with(parts.drop_last(), sep) + sep + parts.last()
    }
}

/// The parts joined with the separator.
pub fn join_vecs(parts: &Vec<Vec<char>>, sep: &Vec<char>) -> (r: Vec<char>)
    ensures
        r@ == join_with(parts.deep_view(), sep@),
{
    let n = parts.len();
    let mut out: Vec<char> = Vec::new();
    let mut i: usize = 0;
    while i < n
        invariant
            n == parts.deep_view().len(),
            i <= n,
            out@ == join_with(parts.deep_view().take(i as int), sep@),
        decreases n - i,
    {
        if i > 0 {
            let mut k: usize = 0;
            let ns = sep.len();
            while k < ns
                invariant
                    ns == sep@.len(),
                    k <= ns,
                    out@ == join_with(parts.deep_view().take(i as int), sep@) + sep@.take(k as int),
                decreases ns - k,
            {
                out.push(sep[k]);
                proof {
                    assert(out@ =~= join_with(parts.deep_view().take(i as int), sep@) + sep@.take(
                        k + 1,
                    ));
                }
                k = k + 1;
            }
            proof {
                assert(sep@.take(ns as int) =~= sep@);
            }
        }
        let part = &parts[i];
        let mut k: usize = 0;
        let np = part.len();
        let ghost base = out@;
        while k < np
            invariant
                np == part@.len(),
                k <= np,
                out@ == base + part@.take(k as int),
            decreases np - k,
        {
            out.push(part[k]);
            proof {
                assert(out@ =~= base + part@.take(k + 1));
            }
            k = k + 1;
        }
        proof {
            let pv = parts.deep_view();
            assert(part@.take(np as int) =~= part@);
            assert(part@ == pv[i as int]);
            assert(pv.take(i + 1).drop_last() =~= pv.take(i as int));
            assert(pv.take(i + 1).last() == pv[i as int]);
            if i == 0 {
                assert(out@ =~= join_with(pv.take(1), sep@));
            } else {
                assert(out@ =~= join_with(pv.take(i as int), sep@) + sep@ + pv[i as int]);
                assert(out@ =~= join_with(pv.take(i + 1), sep@));
            }
        }
        i = i + 1;
    }
    proof {
        assert(parts.deep_view().take(n as int) =~= parts.deep_view());
    }
    out
}

/// The decimal digit character for a value below ten.
pub open spec fn digit_char(d: int) -> char {
    ((48 + d) as u8) as char
}

/// The decimal rendering of a natural number, most significant digit
/// first, no leading zeros (a single `0` for zero).
pub open spec fn dec_of(n: nat) -> Seq<char>
    decreases n,
{
    if n < 10 {
        seq![digit_char(n as int)]
    } else {
        dec_of(n / 10).push(digit_char((n % 10) as int))
    }
}

/// The decimal rendering, zero-padded on the left to two digits.
pub open spec fn dec2_of(n: nat) -> Seq<char> {
    if n < 10 {
        seq!['0'] + dec_of(n)
    } else {
        dec_of(n)
    }
}

/// The decimal digits of a number.
pub fn u64_to_dec(n: u64) -> (r: Vec<char>)
    ensures
        r@ == dec_of(n as nat),
    decreases n,
{
    if n < 10 {
        let c = (48 + n as u8) as char;
        let mut r: Vec<char> = Vec::new();
        r.push(c);
        proof {
            assert(r@ =~= dec_of(n as nat));
        }
        r
    } else {
        let mut r = u64_to_dec(n / 10);
        let d = (n % 10) as u8;
        r.push((48 + d) as char);
        r
    }
}

/// The character sequences of a sequence of strings.
pub open spec fn views_of(ss: Seq<String>) -> Seq<Seq<char>> {
    ss.map_values(|s: String| s@)
}

/// The strings joined with the separator.
pub fn join_strings(parts: &Vec<String>, sep: &str) -> (r: String)
    ensures
        r@ == join_with(views_of(parts@), sep@),
{
    let n = parts.len();
    let mut out = String::new();
    let mut i: usize = 0;
    while i < n
        invariant
            n == parts@.len(),
            i <= n,
            out@ == join_with(views_of(parts@).take(i as int), sep@),
        decreases n - i,
    {
        if i > 0 {
            out.append(sep);
        }
        out.append(parts[i].as_str());
        proof {
            let pv = views_of(parts@);
            assert(pv[i as int] == parts@[i as int]@);
            assert(pv.take(i + 1).drop_last() =~= pv.take(i as int));
            assert(pv.take(i + 1).last() == pv[i as int]);
            if i == 0 {
                assert(out@ =~= join_with(pv.take(1), sep@));
            } else {
                assert(out@ =~= join_with(pv.take(i + 1), sep@));
            }
        }
        i = i + 1;
    }
    proof {
        assert(views_of(parts@).take(n as int) =~= views_of(parts@));
    }
    out
}

/// What `str::to_lowercase` returns for a given character sequence.
pub uninterp spec fn lower_of(s: Seq<char>) -> Seq<char>;

/// What `str::to_uppercase` returns for a given character sequence.
pub uninterp spec fn upper_of(s: Seq<char>) -> Seq<char>;

/// Relies on `str::to_lowercase`: the result depends on the characters
/// alone.
#[verifier::external_body]
pub(crate) fn str_to_lowercase(s: &str) -> (r: String)
    ensures
        r@ == lower_of(s@),
        s@.len() == 0 ==> r@.len() == 0,
{
    s.to_lowercase()
}

/// Relies on `str::to_uppercase`: the result depends on the characters
/// alone.
#[verifier::external_body]
pub(crate) fn str_to_uppercase(s: &str) -> (r: String)
    ensures
        r@ == upper_of(s@),
        s@.len() == 0 ==> r@.len() == 0,
{
    s.to_uppercase()
}

/// ASCII-only lower-casing of one character (`char::to_ascii_lowercase`).
pub open spec fn ascii_lower_char(c: char) -> char {
    if 65 <= c as int <= 90 {
        ((c as int + 32) as u8) as char
    } else {
        c
    }
}

/// ASCII-only lower-casing of a sequence (`str::to_ascii_lowercase`).
pub open spec fn ascii_lower(s: Seq<char>) -> Seq<char> {
    s.map_values(|c: char| ascii_lower_char(c))
}

/// The sequence with every underscore replaced by a dash.
pub open spec fn dashed(s: Seq<char>) -> Seq<char> {
    s.map_values(|c: char| if c == '_' { '-' } else { c })
}

/// ASCII lower-casing with underscores replaced by dashes: the form in
/// which configuration keys are compared.
pub open spec fn normalized_key(s: Seq<char>) -> Seq<char> {
    dashed(ascii_lower(s))
}

/// The ASCII-lower-cased, dash-normalized form of the characters.
pub fn normalize_key_vec(v: &Vec<char>) -> (r: Vec<char>)
    ensures
        r@ == normalized_key(v@),
{
    let n = v.len();
    let mut r: Vec<char> = Vec::new();
    let mut i: usize = 0;
    while i < n
        invariant
            n == v@.len(),
            i <= n,
            r@.len() == i,
            forall|j: int|
                0 <= j < i ==> r@[j] == (if ascii_lower_char(v@[j]) == '_' {
                    '-'
                } else {
                    ascii_lower_char(v@[j])
                }),
        decreases n - i,
    {
        let c = v[i];
        let n32 = c as u32;
        let mapped: char = if 65 <= n32 && n32 <= 90 {
            ((n32 + 32) as u8) as char
        } else if c == '_' {
            '-'
        } else {
            c
        };
        r.push(mapped);
        i = i + 1;
    }
    proof {
        assert(r@ =~= normalized_key(v@));
    }
    r
}

/// The sequence with every non-overlapping occurrence of `pat` removed,
/// scanning left to right (`str::replace` with an empty replacement).
pub open spec fn remove_all(s: Seq<char>, pat: Seq<char>) -> Seq<char>
    decreases s.len(),
    when pat.len() > 0
{
    if s.len() == 0 {
        s
    } else if starts_with_seq(s, pat) {
        remove_all(s.skip(pat.len() as int), pat)
    } else {
        seq![s[0]] + remove_all(s.drop_first(), pat)
    }
}

/// The characters with every occurrence of the pattern removed.
pub fn remove_all_vec(v: &Vec<char>, pat: &Vec<char>) -> (r: Vec<char>)
    requires
        pat@.len() > 0,
    ensures
        r@ == remove_all(v@, pat@),
{
    let n = v.len();
    let np = pat.len();
    let mut out: Vec<char> = Vec::new();
    let mut i: usize = 0;
    proof {
        assert(v@.skip(0) =~= v@);
        assert(Seq::<char>::empty() + remove_all(v@, pat@) =~= remove_all(v@, pat@));
    }
    while i < n
        invariant
            n == v@.len(),
            np == pat@.len(),
            np > 0,
            i <= n,
            remove_all(v@, pat@) == out@ + remove_all(v@.skip(i as int), pat@),
        decreases n - i,
    {
        let mut hit: bool = np <= n - i;
        if hit {
            let mut j: usize = 0;
            while j < np
                invariant
                    n == v@.len(),
                    np == pat@.len(),
                    i + np <= n,
                    j <= np,
                    hit ==> forall|t: int| 0 <= t < j ==> v@[i + t] == pat@[t],
                    !hit ==> !starts_with_seq(v@.skip(i as int), pat@),
                decreases np - j,
            {
                if v[i + j] != pat[j] {
                    proof {
                        assert(v@.skip(i as int).subrange(0, np as int)[j as int] != pat@[
                            j as int
                        ]);
                    }
                    hit = false;
                    j = np;
                } else {
                    j = j + 1;
                }
            }
        } else {
            proof {
                assert(v@.skip(i as int).len() < np);
            }
        }
        let ghost rest = v@.skip(i as int);
        if hit {
            proof {
                assert(rest.subrange(0, np as int) =~= pat@);
                assert(starts_with_seq(rest, pat@));
                assert(rest.skip(np as int) =~= v@.skip(i + np));
            }
            i = i + np;
        } else {
            out.push(v[i]);
            proof {
                assert(rest.len() > 0);
                assert(rest[0] == v@[i as int]);
                assert(rest.drop_first() =~= v@.skip(i + 1));
                assert(remove_all(rest, pat@) == seq![v@[i as int]] + remove_all(
                    v@.skip(i + 1),
                    pat@,
                ));
            }
            i = i + 1;
        }
    }
    proof {
        assert(v@.skip(n as int) =~= Seq::<char>::empty());
        assert(out@ =~= remove_all(v@, pat@));
    }
    out
}

/// The sequence after repeatedly removing one leading `#` and any white
/// space that follows it.
pub open spec fn drop_hashes(s: Seq<char>) -> Seq<char>
    decreases s.len(),
    via drop_hashes_dec
{
    if s.len() > 0 && s[0] == '#' {
        drop_hashes(trim_start_of(s.drop_first()))
    } else {
        s
    }
}

#[via_fn]
proof fn drop_hashes_dec(s: Seq<char>) {
    if s.len() > 0 && s[0] == '#' {
        lemma_trim_start_len(s.drop_first());
    }
}

/// The suffix of the characters from position `k` on.
pub fn skip_vec(v: &Vec<char>, k: usize) -> (r: Vec<char>)
    requires
        k <= v@.len(),
    ensures
        r@ == v@.skip(k as int),
{
    let n = v.len();
    let mut r: Vec<char> = Vec::new();
    let mut i: usize = k;
    while i < n
        invariant
            n == v@.len(),
            k <= i <= n,
            r@ == v@.subrange(k as int, i as int),
        decreases n - i,
    {
        r.push(v[i]);
        proof {
            assert(r@ =~= v@.subrange(k as int, i + 1));
        }
        i = i + 1;
    }
    r
}

/// The first `m` characters, or all of them if there are fewer
/// (`Seq::take` clipped to the length).
pub fn take_vec(v: &Vec<char>, m: usize) -> (r: Vec<char>)
    ensures
        r@ == v@.take(if m <= v@.len() {
            m as int
        } else {
            v@.len() as int
        }),
{
    let n = v.len();
    let e = if m < n {
        m
    } else {
        n
    };
    let mut r: Vec<char> = Vec::new();
    let mut i: usize = 0;
    while i < e
        invariant
            n == v@.len(),
            e <= n,
            i <= e,
            r@ == v@.subrange(0, i as int),
        decreases e - i,
    {
        r.push(v[i]);
        proof {
            assert(r@ =~= v@.subrange(0, i + 1));
        }
        i = i + 1;
    }
    r
}

/// The characters after repeatedly stripping a leading `#` plus the white
/// space behind it.
pub fn drop_hashes_vec(v: Vec<char>) -> (r: Vec<char>)
    ensures
        r@ == drop_hashes(v@),
{
    let mut cur = v;
    while cur.len() > 0 && cur[0] == '#'
        invariant
            drop_hashes(cur@) == drop_hashes(v@),
        decreases cur@.len(),
    {
        let ghost before = cur@;
        let tail = skip_vec(&cur, 1);
        proof {
            assert(before.drop_first() =~= before.skip(1));
            lemma_trim_start_len(before.drop_first());
        }
        cur = trim_start_vec(&tail);
    }
    cur
}

/// If the sequence starts with the pattern, the suffix behind the
/// pattern with leading white space removed; otherwise the sequence.
pub open spec fn strip_prefix_ws(s: Seq<char>, p: Seq<char>) -> Seq<char> {
    if starts_with_seq(s, p) {
        trim_start_of(s.skip(p.len() as int))
    } else {
        s
    }
}

/// Strips one leading occurrence of the pattern and the white space
/// behind it.
pub fn strip_prefix_ws_vec(v: &Vec<char>, p: &Vec<char>) -> (r: Vec<char>)
    ensures
        r@ == strip_prefix_ws(v@, p@),
{
    if starts_with_vec(v, p) {
        let tail = skip_vec(v, p.len());
        trim_start_vec(&tail)
    } else {
        let mut r: Vec<char> = Vec::new();
        let n = v.len();
        let mut i: usize = 0;
        while i < n
            invariant
                n == v@.len(),
                i <= n,
                r@ == v@.subrange(0, i as int),
            decreases n - i,
        {
            r.push(v[i]);
            proof {
                assert(r@ =~= v@.subrange(0, i + 1));
            }
            i = i + 1;
        }
        proof {
            assert(r@ =~= v@);
        }
        r
    }
}

/// Length of the run of ASCII digits starting at position `i`.
pub open spec fn digit_run(s: Seq<char>, i: int) -> int
    decreases s.len() - i,
{
    if 0 <= i < s.len() && is_digit(s[i]) {
        1 + digit_run(s, i + 1)
    } else {
        0
    }
}

/// Length of the run of ASCII white space starting at position `i`.
pub open spec fn ascii_ws_run(s: Seq<char>, i: int) -> int
    decreases s.len() - i,
{
    if 0 <= i < s.len() && is_ascii_ws(s[i]) {
        1 + ascii_ws_run(s, i + 1)
    } else {
        0
    }
}

proof fn lemma_digit_run_split(s: Seq<char>, a: int, b: int)
    requires
        0 <= a <= b <= s.len(),
        forall|j: int| a <= j < b ==> is_digit(s[j]),
    ensures
        digit_run(s, a) == (b - a) + digit_run(s, b),
    decreases b - a,
{
    if a < b {
        lemma_digit_run_split(s, a + 1, b);
    }
}

proof fn lemma_ws_run_split(s: Seq<char>, a: int, b: int)
    requires
        0 <= a <= b <= s.len(),
        forall|j: int| a <= j < b ==> is_ascii_ws(s[j]),
    ensures
        ascii_ws_run(s, a) == (b - a) + ascii_ws_run(s, b),
    decreases b - a,
{
    if a < b {
        lemma_ws_run_split(s, a + 1, b);
    }
}

/// A list-numbering prefix such as `12. ` or `3) ` removed from the
/// front of a line, when one is present.
pub open spec fn stripped_numeric_prefix(s: Seq<char>) -> Seq<char> {
    let d = digit_run(s, 0);
    if d > 0 && d + 1 < s.len() && (s[d] == '.' || s[d] == ')') {
        s.skip(d + 1 + ascii_ws_run(s, d + 1))
    } else {
        s
    }
}

/// Removes a numeric list prefix (digits plus `.` or `)` plus white
/// space) from the front of a line, when one is present.
pub fn strip_numeric_list_prefix_vec(v: &Vec<char>) -> (r: Vec<char>)
    ensures
        r@ == stripped_numeric_prefix(v@),
{
    let n = v.len();
    let mut d: usize = 0;
    while d < n && is_digit_char(v[d])
        invariant
            n == v@.len(),
            d <= n,
            forall|j: int| 0 <= j < d ==> is_digit(v@[j]),
        decreases n - d,
    {
        d = d + 1;
    }
    proof {
        lemma_digit_run_split(v@, 0, d as int);
        assert(digit_run(v@, d as int) == 0);
        assert(digit_run(v@, 0) == d as int);
    }
    if d > 0 && n - d > 1 && (v[d] == '.' || v[d] == ')') {
        let mut w: usize = d + 1;
        while w < n && is_ascii_ws_char(v[w])
            invariant
                n == v@.len(),
                d + 1 <= w <= n,
                forall|j: int| d + 1 <= j < w ==> is_ascii_ws(v@[j]),
            decreases n - w,
        {
            w = w + 1;
        }
        proof {
            lemma_ws_run_split(v@, d + 1, w as int);
            assert(ascii_ws_run(v@, w as int) == 0);
            assert(ascii_ws_run(v@, d + 1) == w - d - 1);
        }
        skip_vec(v, w)
    } else {
        let r = skip_vec(v, 0);
        proof {
            assert(r@ =~= v@);
        }
        r
    }
}

/// The decimal digits, padded to at least two with a leading zero.
pub fn u64_to_dec2(n: u64) -> (r: Vec<char>)
    ensures
        r@ == dec2_of(n as nat),
{
    if n < 10 {
        let mut r: Vec<char> = Vec::new();
        r.push('0');
        let c = (48 + n as u8) as char;
        r.push(c);
        proof {
            assert(r@ =~= seq!['0'] + dec_of(n as nat));
        }
        r
    } else {
        u64_to_dec(n)
    }
}

} // verus!
