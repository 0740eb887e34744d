//! Locale-tolerant coercion of raw text cells into normalized numbers.
//!
//! Numbers are represented as canonical decimal byte strings (an optional
//! `-`, digits without a superfluous leading zero, and an optional fraction
//! without trailing zeros), which the JSON emitters embed as number tokens.

use vstd::prelude::*;
use crate::bytes::{lit, ltrim_by, rtrim_by, lemma_ltrim_exact, lemma_rtrim_exact, push_lit, push_all};

verus! {

/// ASCII decimal digit.
pub open spec fn is_digit(b: u8) -> bool {
    0x30 <= b <= 0x39
}

/// Bytes kept by the cleaning pass: digits, `.`, `-`, `,`.
pub open spec fn keep_numeric(b: u8) -> bool {
    is_digit(b) || b == 0x2e || b == 0x2d || b == 0x2c
}

/// Every byte that is not a digit, `.`, `-` or `,` is dropped.
pub open spec fn clean_numeric(s: Seq<u8>) -> Seq<u8>
    decreases s.len(),
{
    if s.len() == 0 {
        Seq::empty()
    } else {
        clean_numeric(s.drop_last()) + (if keep_numeric(s.last()) {
            seq![s.last()]
        } else {
            Seq::<u8>::empty()
        })
    }
}

/// All commas removed.
pub open spec fn strip_commas(s: Seq<u8>) -> Seq<u8>
    decreases s.len(),
{
    if s.len() == 0 {
        Seq::empty()
    } else {
        strip_commas(s.drop_last()) + (if s.last() == 0x2c {
            Seq::<u8>::empty()
        } else {
            seq![s.last()]
        })
    }
}

/// How often `b` occurs in `s`.
pub open spec fn count_byte(s: Seq<u8>, b: u8) -> nat
    decreases s.len(),
{
    if s.len() == 0 {
        0
    } else {
        count_byte(s.drop_last(), b) + (if s.last() == b {
            1nat
        } else {
            0nat
        })
    }
}

/// First position of `b` in `s` at or after `i`; `s.len()` if there is none.
pub open spec fn find_byte_from(s: Seq<u8>, b: u8, i: int) -> int
    decreases s.len() - i,
{
    if i < 0 || i >= s.len() {
        s.len() as int
    } else if s[i] == b {
        i
    } else {
        find_byte_from(s, b, i + 1)
    }
}

/// The comma heuristic over the cleaned text: with a dot present every comma
/// is a thousands separator; otherwise a single comma followed by at most two
/// characters is the decimal separator; any other pattern is thousands
/// separators.
pub open spec fn comma_rule(c: Seq<u8>) -> Seq<u8> {
    if c.contains(0x2e) {
        strip_commas(c)
    } else if count_byte(c, 0x2c) == 1 && c.len() - find_byte_from(c, 0x2c, 0) - 1 <= 2 {
        c.update(find_byte_from(c, 0x2c, 0), 0x2e)
    } else {
        strip_commas(c)
    }
}

/// The decimal with a leading `-` stripped.
pub open spec fn decimal_body(d: Seq<u8>) -> Seq<u8> {
    if d.len() > 0 && d[0] == 0x2d {
        d.drop_first()
    } else {
        d
    }
}

/// A parseable plain decimal: an optional leading `-`, then digits with at
/// most one `.` among them, and at least one digit.
pub open spec fn plain_decimal(d: Seq<u8>) -> bool {
    &&& count_byte(decimal_body(d), 0x2e) <= 1
    &&& decimal_body(d).len() > count_byte(decimal_body(d), 0x2e)
    &&& forall|j: int|
        0 <= j < decimal_body(d).len() ==> is_digit(decimal_body(d)[j]) || decimal_body(d)[j]
            == 0x2e
}

/// Canonical decimal text from a sign and raw integer / fraction digit runs.
pub open spec fn canon_from_parts(sign: bool, ip: Seq<u8>, fp: Seq<u8>) -> Seq<u8> {
    let ipt = ltrim_by(ip, |b: u8| b == 0x30);
    let fpt = rtrim_by(fp, |b: u8| b == 0x30);
    if ipt.len() == 0 && fpt.len() == 0 {
        lit("0")
    } else {
        (if sign {
            lit("-")
        } else {
            Seq::<u8>::empty()
        }) + (if ipt.len() == 0 {
            lit("0")
        } else {
            ipt
        }) + (if fpt.len() == 0 {
            Seq::<u8>::empty()
        } else {
            lit(".") + fpt
        })
    }
}

/// Canonical form of a plain decimal.
pub open spec fn canon_decimal(d: Seq<u8>) -> Seq<u8>
    recommends
        plain_decimal(d),
{
    let sign = d.len() > 0 && d[0] == 0x2d;
    let body = decimal_body(d);
    let dot = find_byte_from(body, 0x2e, 0);
    let ip = body.subrange(0, dot);
    let fp = if dot == body.len() {
        Seq::<u8>::empty()
    } else {
        body.subrange(dot + 1, body.len() as int)
    };
    canon_from_parts(sign, ip, fp)
}

/// The normalized number for a raw cell: clean, apply the comma heuristic,
/// and canonicalize; anything unparsable is `0`.
pub open spec fn norm_number(s: Seq<u8>) -> Seq<u8> {
    let c = clean_numeric(s);
    if c.len() == 0 {
        lit("0")
    } else {
        let d = comma_rule(c);
        if plain_decimal(d) {
            canon_decimal(d)
        } else {
            lit("0")
        }
    }
}

/// Value of a digit run.
pub open spec fn dec_val(ds: Seq<u8>) -> nat
    decreases ds.len(),
{
    if ds.len() == 0 {
        0
    } else {
        dec_val(ds.drop_last()) * 10 + (ds.last() - 0x30) as nat
    }
}

/// The first maximal digit run of `s`, as a subrange.
pub open spec fn digit_run(s: Seq<u8>) -> Seq<u8> {
    let start = find_first_digit(s, 0);
    let end = find_first_nondigit(s, start);
    s.subrange(start, end)
}

/// First position of a digit at or after `i`; `s.len()` if there is none.
pub open spec fn find_first_digit(s: Seq<u8>, i: int) -> int
    decreases s.len() - i,
{
    if i < 0 || i >= s.len() {
        s.len() as int
    } else if is_digit(s[i]) {
        i
    } else {
        find_first_digit(s, i + 1)
    }
}

/// First position of a non-digit at or after `i`; `s.len()` if there is none.
pub open spec fn find_first_nondigit(s: Seq<u8>, i: int) -> int
    decreases s.len() - i,
{
    if i < 0 || i >= s.len() {
        s.len() as int
    } else if !is_digit(s[i]) {
        i
    } else {
        find_first_nondigit(s, i + 1)
    }
}

/// The normalized integer for a raw cell: the value of the first digit run,
/// or `0` when there is no digit or the run does not fit in `i64`.
pub open spec fn norm_integer(s: Seq<u8>) -> i64 {
    let run = digit_run(s);
    if run.len() == 0 {
        0
    } else if dec_val(run) > i64::MAX {
        0
    } else {
        dec_val(run) as i64
    }
}

/// The normalized integer is never negative.
pub proof fn lemma_norm_integer_nonneg(s: Seq<u8>)
    ensures
        norm_integer(s) >= 0,
{
}

/// `find_byte_from` stays within `[i, s.len()]`.
pub proof fn lemma_find_byte_from_bounds(s: Seq<u8>, b: u8, i: int)
    requires
        0 <= i <= s.len(),
    ensures
        i <= find_byte_from(s, b, i) <= s.len(),
    decreases s.len() - i,
{
    if i < s.len() && s[i] != b {
        lemma_find_byte_from_bounds(s, b, i + 1);
    }
}

proof fn lemma_find_first_digit_bounds(s: Seq<u8>, i: int)
    requires
        0 <= i <= s.len(),
    ensures
        i <= find_first_digit(s, i) <= s.len(),
    decreases s.len() - i,
{
    if i < s.len() && !is_digit(s[i]) {
        lemma_find_first_digit_bounds(s, i + 1);
    }
}

proof fn lemma_find_first_nondigit_bounds(s: Seq<u8>, i: int)
    requires
        0 <= i <= s.len(),
    ensures
        i <= find_first_nondigit(s, i) <= s.len(),
    decreases s.len() - i,
{
    if i < s.len() && is_digit(s[i]) {
        lemma_find_first_nondigit_bounds(s, i + 1);
    }
}

/// The cleaning pass: keep digits, `.`, `-`, `,`.
#[verifier::loop_isolation(false)]
fn clean_pass(s: &[u8]) -> (c: Vec<u8>)
    ensures
        c@ == clean_numeric(s@),
{
    let n = s.len();
    let mut c: Vec<u8> = Vec::new();
    let mut i: usize = 0;
    while i < n
        invariant
            0 <= i <= n,
            c@ == clean_numeric(s@.subrange(0, i as int)),
        decreases n - i,
    {
        let b = s[i];
        i = i + 1;
        proof {
            assert(s@.subrange(0, i as int).drop_last() =~= s@.subrange(0, i - 1));
            assert(s@.subrange(0, i as int).last() == s@[i - 1]);
        }
        if (0x30 <= b && b <= 0x39) || b == 0x2e || b == 0x2d || b == 0x2c {
            c.push(b);
            proof {
                assert(c@ =~= clean_numeric(s@.subrange(0, i as int)));
            }
        } else {
            proof {
                assert(c@ =~= clean_numeric(s@.subrange(0, i as int)));
            }
        }
    }
    proof {
        assert(s@.subrange(0, n as int) =~= s@);
    }
    c
}

/// The comma heuristic, executable form.
#[verifier::loop_isolation(false)]
fn comma_pass(c: &Vec<u8>) -> (d: Vec<u8>)
    ensures
        d@ == comma_rule(c@),
{
    let cn = c.len();
    let mut has_dot = false;
    let mut commas: usize = 0;
    let mut cpos: usize = cn;
    let mut j: usize = 0;
    while j < cn
        invariant
            0 <= j <= cn,
            commas <= j,
            has_dot == exists|k: int| 0 <= k < j && c@[k] == 0x2e,
            commas == count_byte(c@.subrange(0, j as int), 0x2c),
            commas > 0 ==> 0 <= cpos < j && find_byte_from(c@, 0x2c, 0) == cpos as int,
            commas == 0 ==> cpos == cn && find_byte_from(c@, 0x2c, 0) == find_byte_from(
                c@,
                0x2c,
                j as int,
            ),
        decreases cn - j,
    {
        let b = c[j];
        proof {
            assert(c@.subrange(0, j + 1).drop_last() =~= c@.subrange(0, j as int));
            assert(c@.subrange(0, j + 1).last() == c@[j as int]);
        }
        if b == 0x2e {
            has_dot = true;
        }
        if b == 0x2c {
            if commas == 0 {
                cpos = j;
            }
            commas = commas + 1;
        }
        j = j + 1;
    }
    proof {
        assert(c@.subrange(0, cn as int) =~= c@);
        assert(has_dot == c@.contains(0x2e));
        assert(commas == count_byte(c@, 0x2c));
    }
    let mut d: Vec<u8> = Vec::new();
    if !has_dot && commas == 1 && cn - cpos - 1 <= 2 {
        let mut k: usize = 0;
        while k < cn
            invariant
                0 <= k <= cn,
                d@.len() == k,
                forall|t: int| 0 <= t < k ==> d@[t] == c@.update(cpos as int, 0x2eu8)[t],
            decreases cn - k,
        {
            if k == cpos {
                d.push(0x2e);
            } else {
                d.push(c[k]);
            }
            k = k + 1;
        }
        proof {
            assert(d@ =~= c@.update(cpos as int, 0x2eu8));
        }
    } else {
        let mut k: usize = 0;
        while k < cn
            invariant
                0 <= k <= cn,
                d@ == strip_commas(c@.subrange(0, k as int)),
            decreases cn - k,
        {
            let b = c[k];
            k = k + 1;
            proof {
                assert(c@.subrange(0, k as int).drop_last() =~= c@.subrange(0, k - 1));
                assert(c@.subrange(0, k as int).last() == c@[k - 1]);
            }
            if b != 0x2c {
                d.push(b);
            }
            proof {
                assert(d@ =~= strip_commas(c@.subrange(0, k as int)));
            }
        }
        proof {
            assert(c@.subrange(0, cn as int) =~= c@);
        }
    }
    d
}

/// Checks the plain-decimal grammar and reports the dot count and the
/// position of the first dot (the length of `d` when there is none).
#[verifier::loop_isolation(false)]
fn scan_decimal(d: &Vec<u8>, bstart: usize) -> (out: (bool, usize, usize))
    requires
        bstart <= d@.len(),
    ensures
        out.0 == forall|k: int| bstart <= k < d@.len() ==> is_digit(d@[k]) || d@[k] == 0x2e,
        out.1 == count_byte(d@.subrange(bstart as int, d@.len() as int), 0x2e),
        out.1 > 0 ==> bstart <= out.2 < d@.len() && find_byte_from(
            d@.subrange(bstart as int, d@.len() as int),
            0x2e,
            0,
        ) == out.2 - bstart,
        out.1 == 0 ==> out.2 == d@.len() && find_byte_from(
            d@.subrange(bstart as int, d@.len() as int),
            0x2e,
            0,
        ) == d@.len() - bstart,
{
    let dn = d.len();
    let ghost body = d@.subrange(bstart as int, dn as int);
    let mut dots: usize = 0;
    let mut dpos: usize = dn;
    let mut valid = true;
    let mut t: usize = bstart;
    while t < dn
        invariant
            bstart <= t <= dn,
            dots <= t,
            dots == count_byte(d@.subrange(bstart as int, t as int), 0x2e),
            valid == forall|k: int| bstart <= k < t ==> is_digit(d@[k]) || d@[k] == 0x2e,
            dots > 0 ==> bstart <= dpos < t && find_byte_from(body, 0x2e, 0) == dpos - bstart,
            dots == 0 ==> dpos == dn && find_byte_from(body, 0x2e, 0) == find_byte_from(
                body,
                0x2e,
                t - bstart,
            ),
        decreases dn - t,
    {
        let b = d[t];
        proof {
            assert(d@.subrange(bstart as int, t + 1).drop_last() =~= d@.subrange(
                bstart as int,
                t as int,
            ));
            assert(d@.subrange(bstart as int, t + 1).last() == d@[t as int]);
            assert(body[t - bstart] == d@[t as int]);
        }
        if b == 0x2e {
            if dots == 0 {
                dpos = t;
            }
            dots = dots + 1;
        } else if !(0x30 <= b && b <= 0x39) {
            valid = false;
        }
        t = t + 1;
    }
    proof {
        assert(d@.subrange(bstart as int, dn as int) =~= body);
    }
    (valid, dots, dpos)
}

/// Relates the scan to the grammar predicate.
proof fn lemma_scan_grammar(d: Seq<u8>, bstart: int, valid: bool, dots: nat)
    requires
        bstart == if d.len() > 0 && d[0] == 0x2d {
            1int
        } else {
            0int
        },
        bstart <= d.len(),
        valid == forall|k: int| bstart <= k < d.len() ==> is_digit(d[k]) || d[k] == 0x2e,
        dots == count_byte(d.subrange(bstart, d.len() as int), 0x2e),
    ensures
        plain_decimal(d) == (valid && dots <= 1 && d.len() - bstart > dots),
{
    let body = decimal_body(d);
    assert(body =~= d.subrange(bstart, d.len() as int));
    assert(forall|k: int| 0 <= k < body.len() ==> body[k] == d[k + bstart]);
    if valid {
        assert(forall|k: int| 0 <= k < body.len() ==> is_digit(body[k]) || body[k] == 0x2e);
    } else {
        if plain_decimal(d) {
            assert forall|k: int| bstart <= k < d.len() implies is_digit(d[k]) || d[k] == 0x2e by {
                assert(body[k - bstart] == d[k]);
                assert(is_digit(body[k - bstart]) || body[k - bstart] == 0x2e);
            }
            assert(false);
        }
    }
}

/// Canonicalizes a valid plain decimal `d` with the dot at `dpos`
/// (`d.len()` when there is none).
#[verifier::loop_isolation(false)]
#[verifier::rlimit(60)]
fn canon_pass(d: &Vec<u8>, bstart: usize, dots: usize, dpos: usize) -> (r: Vec<u8>)
    requires
        plain_decimal(d@),
        bstart == if d@.len() > 0 && d@[0] == 0x2d {
            1usize
        } else {
            0usize
        },
        bstart <= d@.len(),
        dots == count_byte(d@.subrange(bstart as int, d@.len() as int), 0x2e),
        dots > 0 ==> bstart <= dpos < d@.len() && find_byte_from(
            d@.subrange(bstart as int, d@.len() as int),
            0x2e,
            0,
        ) == dpos - bstart,
        dots == 0 ==> dpos == d@.len() && find_byte_from(
            d@.subrange(bstart as int, d@.len() as int),
            0x2e,
            0,
        ) == d@.len() - bstart,
    ensures
        r@ == canon_decimal(d@),
{
    let dn = d.len();
    let sign = bstart == 1;
    let ghost body = d@.subrange(bstart as int, dn as int);
    proof {
        assert(body =~= if sign {
            d@.drop_first()
        } else {
            d@
        });
    }
    let ip_end: usize = if dots == 0 {
        dn
    } else {
        dpos
    };
    let fp_start: usize = if dots == 0 {
        dn
    } else {
        dpos + 1
    };
    let ghost dot = find_byte_from(body, 0x2e, 0);
    let ghost ip = body.subrange(0, dot);
    let ghost fp = if dot == body.len() {
        Seq::<u8>::empty()
    } else {
        body.subrange(dot + 1, body.len() as int)
    };
    proof {
        assert(ip =~= d@.subrange(bstart as int, ip_end as int));
        assert(fp =~= d@.subrange(fp_start as int, dn as int));
        assert(canon_decimal(d@) == canon_from_parts(sign, ip, fp));
    }
    let mut i0: usize = bstart;
    while i0 < ip_end && d[i0] == 0x30
        invariant
            bstart <= i0 <= ip_end,
            forall|k: int| bstart <= k < i0 ==> d@[k] == 0x30,
        decreases ip_end - i0,
    {
        i0 = i0 + 1;
    }
    proof {
        lemma_ltrim_exact(ip, |b: u8| b == 0x30, i0 - bstart);
        assert(ltrim_by(ip, |b: u8| b == 0x30) =~= d@.subrange(i0 as int, ip_end as int));
    }
    let mut j0: usize = dn;
    while j0 > fp_start && d[j0 - 1] == 0x30
        invariant
            fp_start <= j0 <= dn,
            forall|k: int| j0 <= k < dn ==> d@[k] == 0x30,
        decreases j0,
    {
        j0 = j0 - 1;
    }
    proof {
        lemma_rtrim_exact(fp, |b: u8| b == 0x30, j0 - fp_start);
        assert(rtrim_by(fp, |b: u8| b == 0x30) =~= d@.subrange(fp_start as int, j0 as int));
    }
    let mut r: Vec<u8> = Vec::new();
    if i0 == ip_end && j0 == fp_start {
        push_lit(&mut r, "0");
        proof {
            assert(r@ =~= lit("0"));
        }
        return r;
    }
    if sign {
        push_lit(&mut r, "-");
    }
    if i0 == ip_end {
        push_lit(&mut r, "0");
    } else {
        push_all(&mut r, vstd::slice::slice_subrange(d.as_slice(), i0, ip_end));
    }
    if j0 > fp_start {
        push_lit(&mut r, ".");
        push_all(&mut r, vstd::slice::slice_subrange(d.as_slice(), fp_start, j0));
    }
    proof {
        assert(r@ =~= canon_from_parts(sign, ip, fp));
    }
    r
}

/// Empty input and unparsable text coerce to `0`; a `.` makes every comma a
/// thousands separator; a single decimal comma with at most two trailing
/// characters becomes a decimal point; the result is in canonical decimal
/// form. Never fails.
pub fn normalize_number(s: &[u8]) -> (r: Vec<u8>)
    ensures
        r@ == norm_number(s@),
{
    let c = clean_pass(s);
    if c.len() == 0 {
        return zero_text();
    }
    let d = comma_pass(&c);
    let bstart: usize = if d.len() > 0 && d[0] == 0x2d {
        1
    } else {
        0
    };
    let (valid, dots, dpos) = scan_decimal(&d, bstart);
    proof {
        lemma_scan_grammar(d@, bstart as int, valid, dots as nat);
    }
    if !valid || dots > 1 || d.len() - bstart <= dots {
        return zero_text();
    }
    canon_pass(&d, bstart, dots, dpos)
}


/// The canonical zero.
fn zero_text() -> (r: Vec<u8>)
    ensures
        r@ == lit("0"),
{
    let mut r: Vec<u8> = Vec::new();
    push_lit(&mut r, "0");
    proof {
        assert(r@ =~= lit("0"));
    }
    r
}

/// Scans left to right, accumulates the first maximal run of ASCII digits,
/// ignoring any leading non-digit characters; `0` if no digit run is found
/// or the run overflows `i64`. Sign and fraction are intentionally ignored.
#[verifier::loop_isolation(false)]
pub fn normalize_integer(s: &[u8]) -> (r: i64)
    ensures
        r == norm_integer(s@),
{
    let n = s.len();
    let mut i: usize = 0;
    while i < n && !(0x30 <= s[i] && s[i] <= 0x39)
        invariant
            0 <= i <= n,
            find_first_digit(s@, 0) == find_first_digit(s@, i as int),
        decreases n - i,
    {
        i = i + 1;
    }
    proof {
        lemma_find_first_digit_bounds(s@, i as int);
        assert(find_first_digit(s@, 0) == i as int);
    }
    if i == n {
        proof {
            assert(s@.subrange(n as int, find_first_nondigit(s@, n as int)) =~= Seq::<
                u8,
            >::empty());
        }
        return 0;
    }
    let start = i;
    let max_val: u64 = 0x7fffffffffffffff;
    let mut acc: u64 = 0;
    let mut fits = true;
    let mut j: usize = start;
    while j < n && 0x30 <= s[j] && s[j] <= 0x39
        invariant
            start <= j <= n,
            find_first_nondigit(s@, start as int) == find_first_nondigit(s@, j as int),
            fits ==> acc == dec_val(s@.subrange(start as int, j as int)) && acc <= max_val,
            !fits ==> dec_val(s@.subrange(start as int, j as int)) > max_val,
        decreases n - j,
    {
        let d: u64 = (s[j] - 0x30) as u64;
        proof {
            assert(s@.subrange(start as int, j + 1).drop_last() =~= s@.subrange(
                start as int,
                j as int,
            ));
            assert(s@.subrange(start as int, j + 1).last() == s@[j as int]);
        }
        let ghost prev = dec_val(s@.subrange(start as int, j as int));
        proof {
            assert(dec_val(s@.subrange(start as int, j + 1)) == prev * 10 + d);
        }
        if fits {
            let limit = (max_val - d) / 10;
            if acc <= limit {
                proof {
                    assert(acc * 10 + d <= max_val) by (nonlinear_arith)
                        requires
                            acc <= (max_val - d) / 10,
                            d <= max_val,
                    ;
                }
                acc = acc * 10 + d;
            } else {
                proof {
                    assert(acc * 10 + d > max_val) by (nonlinear_arith)
                        requires
                            acc > (max_val - d) / 10,
                            d <= 9,
                    ;
                }
                fits = false;
            }
        } else {
            proof {
                assert(prev * 10 + d > max_val) by (nonlinear_arith)
                    requires
                        prev > max_val,
                ;
            }
        }
        j = j + 1;
    }
    proof {
        lemma_find_first_nondigit_bounds(s@, j as int);
        assert(find_first_nondigit(s@, start as int) == j as int);
        assert(digit_run(s@) == s@.subrange(start as int, j as int));
        assert(digit_run(s@).len() > 0);
    }
    if fits {
        acc as i64
    } else {
        0
    }
}

} // verus!
