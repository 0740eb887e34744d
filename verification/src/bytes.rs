//! Byte-level building blocks: literal bytes, searching, case folding and
//! trimming, shared by the resolver, the coercers and the JSON emitters.

use vstd::prelude::*;
use vstd::string::*;

verus! {

/// The bytes of a string literal, as the contracts of this crate speak of them.
pub open spec fn lit(s: &str) -> Seq<u8> {
    s.spec_bytes()
}

/// Append every byte of `s` to `out`.
pub fn push_all(out: &mut Vec<u8>, s: &[u8])
    ensures
        final(out)@ == old(out)@ + s@,
{
    let ghost orig = out@;
    let mut j: usize = 0;
    while j < s.len()
        invariant
            j <= s.len(),
            out@ == orig + s@.subrange(0, j as int),
        decreases s.len() - j,
    {
        let b = s[j];
        out.push(b);
        j = j + 1;
        proof {
            assert(s@.subrange(0, j as int) =~= s@.subrange(0, j - 1) + seq![s@[j - 1]]);
            assert(out@ =~= orig + s@.subrange(0, j as int));
        }
    }
    proof {
        assert(s@.subrange(0, s@.len() as int) =~= s@);
    }
}

/// Append the bytes of a string literal to `out`.
pub fn push_lit(out: &mut Vec<u8>, s: &str)
    ensures
        final(out)@ == old(out)@ + lit(s),
{
    push_all(out, s.as_bytes());
}

/// Byte-for-byte equality of two slices.
pub fn eq_bytes(a: &[u8], b: &[u8]) -> (r: bool)
    ensures
        r == (a@ == b@),
{
    if a.len() != b.len() {
        return false;
    }
    let mut j: usize = 0;
    while j < a.len()
        invariant
            j <= a.len(),
            a@.len() == b@.len(),
            forall|k: int| 0 <= k < j ==> a@[k] == b@[k],
        decreases a.len() - j,
    {
        if a[j] != b[j] {
            return false;
        }
        j = j + 1;
    }
    proof {
        assert(a@ =~= b@);
    }
    true
}

/// Equality of a slice against the bytes of a string literal.
pub fn eq_lit(a: &[u8], s: &str) -> (r: bool)
    ensures
        r == (a@ == lit(s)),
{
    eq_bytes(a, s.as_bytes())
}

/// `p` occurs in `h` starting at position `i`.
pub open spec fn match_at(h: Seq<u8>, p: Seq<u8>, i: int) -> bool {
    0 <= i && i + p.len() <= h.len() && h.subrange(i, i + p.len()) == p
}

/// `p` occurs somewhere in `h`.
pub open spec fn contains_seq(h: Seq<u8>, p: Seq<u8>) -> bool {
    exists|i: int| match_at(h, p, i)
}

pub fn match_at_exec(h: &[u8], p: &[u8], i: usize) -> (r: bool)
    requires
        i + p@.len() <= h@.len(),
    ensures
        r == match_at(h@, p@, i as int),
{
    let hn = h.len();
    let pn = p.len();
    let mut j: usize = 0;
    while j < pn
        invariant
            j <= pn,
            pn == p@.len(),
            hn == h@.len(),
            i + pn <= hn,
            forall|k: int| 0 <= k < j ==> h@[i + k] == p@[k],
        decreases pn - j,
    {
        if h[i + j] != p[j] {
            proof {
                assert(h@.subrange(i as int, i + p@.len())[j as int] == h@[i + j]);
            }
            return false;
        }
        j = j + 1;
    }
    proof {
        assert(h@.subrange(i as int, i + p@.len()) =~= p@);
    }
    true
}

/// Substring search.
pub fn contains_bytes(h: &[u8], p: &[u8]) -> (r: bool)
    ensures
        r == contains_seq(h@, p@),
{
    if p.len() > h.len() {
        proof {
            assert(forall|i: int| !match_at(h@, p@, i));
        }
        return false;
    }
    if p.len() == 0 {
        proof {
            assert(h@.subrange(0, 0) =~= p@);
            assert(match_at(h@, p@, 0));
        }
        return true;
    }
    let hn = h.len();
    let pn = p.len();
    let bound = hn - pn;
    let mut i: usize = 0;
    while i <= bound
        invariant
            hn == h@.len(),
            pn == p@.len(),
            1 <= pn <= hn,
            bound == hn - pn,
            i <= bound + 1,
            forall|k: int| 0 <= k < i ==> !match_at(h@, p@, k),
        decreases bound + 1 - i,
    {
        if match_at_exec(h, p, i) {
            proof {
                assert(match_at(h@, p@, i as int));
            }
            return true;
        }
        i = i + 1;
    }
    proof {
        assert forall|k: int| !match_at(h@, p@, k) by {
            if k < i {
            } else {
                assert(k + p@.len() > h@.len());
            }
        }
    }
    false
}

/// Substring search against a string literal.
pub fn contains_lit(h: &[u8], s: &str) -> (r: bool)
    ensures
        r == contains_seq(h@, lit(s)),
{
    contains_bytes(h, s.as_bytes())
}

/// ASCII upper-case letters fold to lower case; every other byte is kept.
pub open spec fn lower_byte(b: u8) -> u8 {
    if 0x41 <= b <= 0x5a {
        (b + 0x20) as u8
    } else {
        b
    }
}

/// Case folding of a whole byte sequence.
pub open spec fn lower_seq(s: Seq<u8>) -> Seq<u8> {
    s.map_values(|b: u8| lower_byte(b))
}

/// Case folding, executable form.
pub fn to_lower(s: &[u8]) -> (r: Vec<u8>)
    ensures
        r@ == lower_seq(s@),
{
    let mut r: Vec<u8> = Vec::new();
    let mut i: usize = 0;
    while i < s.len()
        invariant
            i <= s.len(),
            r@.len() == i,
            forall|k: int| 0 <= k < i ==> r@[k] == lower_byte(s@[k]),
        decreases s.len() - i,
    {
        let b = s[i];
        if 0x41 <= b && b <= 0x5a {
            r.push(b + 0x20);
        } else {
            r.push(b);
        }
        i = i + 1;
    }
    proof {
        assert(r@ =~= lower_seq(s@));
    }
    r
}

/// ASCII whitespace, as cells and headers are trimmed of it.
pub open spec fn is_ws(b: u8) -> bool {
    b == 0x09 || b == 0x0a || b == 0x0c || b == 0x0d || b == 0x20
}

/// Quote characters stripped from cells and headers: `"` and `'`.
pub open spec fn is_quote(b: u8) -> bool {
    b == 0x22 || b == 0x27
}

pub open spec fn ltrim_by(s: Seq<u8>, p: spec_fn(u8) -> bool) -> Seq<u8>
    decreases s.len(),
{
    if s.len() > 0 && p(s[0]) {
        ltrim_by(s.drop_first(), p)
    } else {
        s
    }
}

pub open spec fn rtrim_by(s: Seq<u8>, p: spec_fn(u8) -> bool) -> Seq<u8>
    decreases s.len(),
{
    if s.len() > 0 && p(s.last()) {
        rtrim_by(s.drop_last(), p)
    } else {
        s
    }
}

/// Both ends stripped of bytes satisfying `p`.
pub open spec fn trim_by(s: Seq<u8>, p: spec_fn(u8) -> bool) -> Seq<u8> {
    rtrim_by(ltrim_by(s, p), p)
}

proof fn lemma_ltrim_step(s: Seq<u8>, p: spec_fn(u8) -> bool, start: int)
    requires
        0 <= start < s.len(),
        p(s[start]),
    ensures
        ltrim_by(s.subrange(start, s.len() as int), p) == ltrim_by(
            s.subrange(start + 1, s.len() as int),
            p,
        ),
{
    let sub = s.subrange(start, s.len() as int);
    assert(sub.drop_first() =~= s.subrange(start + 1, s.len() as int));
}

proof fn lemma_rtrim_step(s: Seq<u8>, p: spec_fn(u8) -> bool, start: int, end: int)
    requires
        0 <= start < end <= s.len(),
        p(s[end - 1]),
    ensures
        rtrim_by(s.subrange(start, end), p) == rtrim_by(s.subrange(start, end - 1), p),
{
    let sub = s.subrange(start, end);
    assert(sub.drop_last() =~= s.subrange(start, end - 1));
}

/// If the first `k` bytes satisfy `p` and byte `k` (if any) does not,
/// the left trim is exactly the tail from `k`.
pub proof fn lemma_ltrim_exact(s: Seq<u8>, p: spec_fn(u8) -> bool, k: int)
    requires
        0 <= k <= s.len(),
        forall|j: int| 0 <= j < k ==> p(s[j]),
        k == s.len() || !p(s[k]),
    ensures
        ltrim_by(s, p) == s.subrange(k, s.len() as int),
    decreases k,
{
    if k == 0 {
        assert(s.subrange(0, s.len() as int) =~= s);
    } else {
        let t = s.drop_first();
        assert(forall|j: int| 0 <= j < k - 1 ==> p(t[j]));
        lemma_ltrim_exact(t, p, k - 1);
        assert(t.subrange(k - 1, t.len() as int) =~= s.subrange(k, s.len() as int));
    }
}

/// If every byte from `k` on satisfies `p` and byte `k - 1` (if any) does not,
/// the right trim is exactly the head up to `k`.
pub proof fn lemma_rtrim_exact(s: Seq<u8>, p: spec_fn(u8) -> bool, k: int)
    requires
        0 <= k <= s.len(),
        forall|j: int| k <= j < s.len() ==> p(s[j]),
        k == 0 || !p(s[k - 1]),
    ensures
        rtrim_by(s, p) == s.subrange(0, k),
    decreases s.len() - k,
{
    if k == s.len() {
        assert(s.subrange(0, k) =~= s);
    } else {
        let t = s.drop_last();
        assert(forall|j: int| k <= j < t.len() ==> p(t[j]));
        lemma_rtrim_exact(t, p, k);
        assert(t.subrange(0, k) =~= s.subrange(0, k));
    }
}

fn hits(b: u8, quotes: bool) -> (r: bool)
    ensures
        r == if quotes {
            is_quote(b)
        } else {
            is_ws(b)
        },
{
    if quotes {
        b == 0x22 || b == 0x27
    } else {
        b == 0x09 || b == 0x0a || b == 0x0c || b == 0x0d || b == 0x20
    }
}

fn trim_generic(s: &[u8], quotes: bool) -> (r: Vec<u8>)
    ensures
        r@ == trim_by(s@, if quotes { |b: u8| is_quote(b) } else { |b: u8| is_ws(b) }),
{
    let ghost p: spec_fn(u8) -> bool = if quotes {
        |b: u8| is_quote(b)
    } else {
        |b: u8| is_ws(b)
    };
    let mut start: usize = 0;
    proof {
        assert(s@.subrange(0, s@.len() as int) =~= s@);
    }
    while start < s.len() && hits(s[start], quotes)
        invariant
            start <= s@.len(),
            p == (if quotes { (|b: u8| is_quote(b)) } else { (|b: u8| is_ws(b)) }),
            ltrim_by(s@, p) == ltrim_by(s@.subrange(start as int, s@.len() as int), p),
        decreases s.len() - start,
    {
        proof {
            lemma_ltrim_step(s@, p, start as int);
        }
        start = start + 1;
    }
    proof {
        assert(s@.subrange(0, s@.len() as int) =~= s@);
        if start < s@.len() {
            assert(!p(s@[start as int]));
        }
        assert(ltrim_by(s@, p) == s@.subrange(start as int, s@.len() as int));
    }
    let mut end: usize = s.len();
    while end > start && hits(s[end - 1], quotes)
        invariant
            start <= end <= s@.len(),
            p == (if quotes { (|b: u8| is_quote(b)) } else { (|b: u8| is_ws(b)) }),
            ltrim_by(s@, p) == s@.subrange(start as int, s@.len() as int),
            rtrim_by(ltrim_by(s@, p), p) == rtrim_by(s@.subrange(start as int, end as int), p),
        decreases end,
    {
        proof {
            lemma_rtrim_step(s@, p, start as int, end as int);
        }
        end = end - 1;
    }
    proof {
        let sub = s@.subrange(start as int, end as int);
        if end > start {
            assert(!p(sub.last()));
        }
        assert(rtrim_by(sub, p) == sub);
    }
    let piece = vstd::slice::slice_subrange(s, start, end);
    vstd::slice::slice_to_vec(piece)
}

/// Whitespace stripped from both ends.
pub open spec fn trim_ws(s: Seq<u8>) -> Seq<u8> {
    trim_by(s, |b: u8| is_ws(b))
}

/// Quote characters stripped from both ends.
pub open spec fn trim_quotes(s: Seq<u8>) -> Seq<u8> {
    trim_by(s, |b: u8| is_quote(b))
}

/// Whitespace trim from both ends.
pub fn trim_ws_vec(s: &[u8]) -> (r: Vec<u8>)
    ensures
        r@ == trim_ws(s@),
{
    trim_generic(s, false)
}

/// Quote-character trim from both ends.
pub fn trim_quotes_vec(s: &[u8]) -> (r: Vec<u8>)
    ensures
        r@ == trim_quotes(s@),
{
    trim_generic(s, true)
}

} // verus!
