//! JSON byte-level emission: string escaping, decimal rendering of integers,
//! and object members, used to frame the output records.

use vstd::prelude::*;
use crate::bytes::{lit, push_lit, push_all};

verus! {

/// Hex digit for a value below 16, lower case.
pub open spec fn hex_digit(n: u8) -> u8 {
    if n < 10 {
        (0x30 + n) as u8
    } else {
        (0x57 + n) as u8
    }
}

/// The escape of one byte inside a JSON string: quote and backslash are
/// backslash-escaped, the short control escapes are used where JSON has them,
/// any other control byte becomes `\u00XX`, everything else stands as itself.
pub open spec fn esc_byte(b: u8) -> Seq<u8> {
    if b == 0x22 {
        lit("\\\"")
    } else if b == 0x5c {
        lit("\\\\")
    } else if b == 0x08 {
        lit("\\b")
    } else if b == 0x09 {
        lit("\\t")
    } else if b == 0x0a {
        lit("\\n")
    } else if b == 0x0c {
        lit("\\f")
    } else if b == 0x0d {
        lit("\\r")
    } else if b < 0x20 {
        lit("\\u00") + seq![hex_digit(b / 16), hex_digit(b % 16)]
    } else {
        seq![b]
    }
}

/// The escape of a whole byte string.
pub open spec fn esc_seq(s: Seq<u8>) -> Seq<u8>
    decreases s.len(),
{
    if s.len() == 0 {
        Seq::empty()
    } else {
        esc_seq(s.drop_last()) + esc_byte(s.last())
    }
}

/// Appends the escaped form of `s`.
#[verifier::loop_isolation(false)]
pub fn push_escaped(out: &mut Vec<u8>, s: &[u8])
    ensures
        final(out)@ == old(out)@ + esc_seq(s@),
{
    let n = s.len();
    let ghost orig = old(out)@;
    let mut i: usize = 0;
    proof {
        assert(out@ =~= orig + esc_seq(s@.subrange(0, 0)));
    }
    while i < n
        invariant
            0 <= i <= n,
            out@ == orig + esc_seq(s@.subrange(0, i as int)),
        decreases n - i,
    {
        let b = s[i];
        i = i + 1;
        proof {
            assert(s@.subrange(0, i as int).drop_last() =~= s@.subrange(0, i - 1));
            assert(s@.subrange(0, i as int).last() == s@[i - 1]);
        }
        if b == 0x22 {
            push_lit(out, "\\\"");
        } else if b == 0x5c {
            push_lit(out, "\\\\");
        } else if b == 0x08 {
            push_lit(out, "\\b");
        } else if b == 0x09 {
            push_lit(out, "\\t");
        } else if b == 0x0a {
            push_lit(out, "\\n");
        } else if b == 0x0c {
            push_lit(out, "\\f");
        } else if b == 0x0d {
            push_lit(out, "\\r");
        } else if b < 0x20 {
            push_lit(out, "\\u00");
            let hi = b / 16;
            let lo = b % 16;
            if hi < 10 {
                out.push(0x30 + hi);
            } else {
                out.push(0x57 + hi);
            }
            if lo < 10 {
                out.push(0x30 + lo);
            } else {
                out.push(0x57 + lo);
            }
            proof {
                assert(esc_byte(b) =~= lit("\\u00") + seq![hex_digit(b / 16), hex_digit(b % 16)]);
            }
        } else {
            out.push(b);
            proof {
                assert(esc_byte(b) =~= seq![b]);
            }
        }
        proof {
            assert(out@ =~= orig + esc_seq(s@.subrange(0, i as int)));
        }
    }
    proof {
        assert(s@.subrange(0, n as int) =~= s@);
    }
}

/// Decimal text of a nonnegative number.
pub open spec fn dec_text(n: nat) -> Seq<u8>
    decreases n,
{
    if n < 10 {
        seq![(0x30 + n) as u8]
    } else {
        dec_text(n / 10) + seq![(0x30 + n % 10) as u8]
    }
}

/// Appends the decimal text of `n`.
pub fn push_u64_dec(out: &mut Vec<u8>, n: u64)
    ensures
        final(out)@ == old(out)@ + dec_text(n as nat),
    decreases n,
{
    if n < 10 {
        out.push(0x30 + (n as u8));
        proof {
            assert(out@ =~= old(out)@ + dec_text(n as nat));
        }
    } else {
        push_u64_dec(out, n / 10);
        out.push(0x30 + ((n % 10) as u8));
        proof {
            assert(out@ =~= old(out)@ + dec_text(n as nat));
        }
    }
}

/// A string-valued member without its separator: `"key":"escaped-value"`.
pub open spec fn str_member(key: &str, val: Seq<u8>) -> Seq<u8> {
    lit("\"") + lit(key) + lit("\":\"") + esc_seq(val) + lit("\"")
}

/// A member whose value is raw number text: `"key":text`.
pub open spec fn num_member(key: &str, num: Seq<u8>) -> Seq<u8> {
    lit("\"") + lit(key) + lit("\":") + num
}

/// A member with a nonnegative integer value.
pub open spec fn int_member(key: &str, n: nat) -> Seq<u8> {
    num_member(key, dec_text(n))
}

/// Appends `"key":"value"` with the value escaped.
pub fn push_str_member(out: &mut Vec<u8>, key: &str, val: &[u8])
    ensures
        final(out)@ == old(out)@ + str_member(key, val@),
{
    push_lit(out, "\"");
    push_lit(out, key);
    push_lit(out, "\":\"");
    push_escaped(out, val);
    push_lit(out, "\"");
    proof {
        assert(out@ =~= old(out)@ + str_member(key, val@));
    }
}

/// Appends `"key":text` with `num` holding ready-made number text.
pub fn push_num_member(out: &mut Vec<u8>, key: &str, num: &[u8])
    ensures
        final(out)@ == old(out)@ + num_member(key, num@),
{
    push_lit(out, "\"");
    push_lit(out, key);
    push_lit(out, "\":");
    push_all(out, num);
    proof {
        assert(out@ =~= old(out)@ + num_member(key, num@));
    }
}

/// Appends `"key":n` for a nonnegative integer.
pub fn push_int_member(out: &mut Vec<u8>, key: &str, n: i64)
    requires
        n >= 0,
    ensures
        final(out)@ == old(out)@ + int_member(key, n as nat),
{
    push_lit(out, "\"");
    push_lit(out, key);
    push_lit(out, "\":");
    push_u64_dec(out, n as u64);
    proof {
        assert(out@ =~= old(out)@ + int_member(key, n as nat));
    }
}

} // verus!
