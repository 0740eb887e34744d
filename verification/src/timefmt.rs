//! Rendering of the shared import timestamp: civil date from days since the
//! Unix epoch, and the fixed-width timestamp text. The caller supplies the
//! clock reading; everything from there on is arithmetic.

use vstd::prelude::*;
use crate::bytes::{lit, push_lit};
use crate::json::{dec_text, push_u64_dec};

verus! {

/// The civil date for a day count since 1970-01-01, by era decomposition
/// over the 400-year Gregorian cycle.
pub open spec fn spec_ymd(days: nat) -> (nat, nat, nat) {
    let z = days + 719468;
    let era = z / 146097;
    let doe = z % 146097;
    let yoe = (doe - doe / 1460 + doe / 36524 - doe / 146096) as nat / 365;
    let y = yoe + era * 400;
    let ys = 365 * yoe + yoe / 4 - yoe / 100;
    let doy = if ys <= doe {
        (doe - ys) as nat
    } else {
        0
    };
    let mp = (5 * doy + 2) / 153;
    let d = (doy - (153 * mp + 2) / 5) as nat + 1;
    let m = if mp < 10 {
        mp + 3
    } else {
        (mp - 9) as nat
    };
    if m <= 2 {
        (y + 1, m, d)
    } else {
        (y, m, d)
    }
}

/// Executable civil-date computation.
pub fn epoch_days_to_ymd(days: u64) -> (r: (u64, u64, u64))
    requires
        days <= 0x0fff_ffff_ffff_ffff,
    ensures
        (r.0 as nat, r.1 as nat, r.2 as nat) == spec_ymd(days as nat),
{
    let z = days + 719468;
    let era = z / 146097;
    let doe = z % 146097;
    let yoe = (doe - doe / 1460 + doe / 36524 - doe / 146096) / 365;
    proof {
        assert(doe / 1460 + doe / 146096 <= doe) by (nonlinear_arith);
        assert(yoe <= doe);
    }
    let y = yoe + era * 400;
    proof {
        assert(yoe / 100 <= 365 * yoe + yoe / 4) by (nonlinear_arith);
        assert(365 * yoe <= 365 * doe) by (nonlinear_arith)
            requires
                yoe <= doe,
        ;
    }
    let ys = 365 * yoe + yoe / 4 - yoe / 100;
    let doy = if ys <= doe {
        doe - ys
    } else {
        0
    };
    let mp = (5 * doy + 2) / 153;
    proof {
        assert((153 * mp + 2) / 5 <= doy) by (nonlinear_arith)
            requires
                mp == (5 * doy + 2) / 153,
        ;
    }
    let d = doy - (153 * mp + 2) / 5 + 1;
    let m = if mp < 10 {
        mp + 3
    } else {
        mp - 9
    };
    if m <= 2 {
        (y + 1, m, d)
    } else {
        (y, m, d)
    }
}

/// Decimal text padded with zeros to at least two digits.
pub open spec fn pad2(n: nat) -> Seq<u8> {
    if n < 10 {
        lit("0") + dec_text(n)
    } else {
        dec_text(n)
    }
}

/// Decimal text padded with zeros to at least three digits.
pub open spec fn pad3(n: nat) -> Seq<u8> {
    if n < 10 {
        lit("00") + dec_text(n)
    } else if n < 100 {
        lit("0") + dec_text(n)
    } else {
        dec_text(n)
    }
}

/// Decimal text padded with zeros to at least four digits.
pub open spec fn pad4(n: nat) -> Seq<u8> {
    if n < 10 {
        lit("000") + dec_text(n)
    } else if n < 100 {
        lit("00") + dec_text(n)
    } else if n < 1000 {
        lit("0") + dec_text(n)
    } else {
        dec_text(n)
    }
}

fn push_pad2(out: &mut Vec<u8>, n: u64)
    ensures
        final(out)@ == old(out)@ + pad2(n as nat),
{
    if n < 10 {
        push_lit(out, "0");
    }
    push_u64_dec(out, n);
    proof {
        assert(out@ =~= old(out)@ + pad2(n as nat));
    }
}

fn push_pad3(out: &mut Vec<u8>, n: u64)
    ensures
        final(out)@ == old(out)@ + pad3(n as nat),
{
    if n < 10 {
        push_lit(out, "00");
    } else if n < 100 {
        push_lit(out, "0");
    }
    push_u64_dec(out, n);
    proof {
        assert(out@ =~= old(out)@ + pad3(n as nat));
    }
}

fn push_pad4(out: &mut Vec<u8>, n: u64)
    ensures
        final(out)@ == old(out)@ + pad4(n as nat),
{
    if n < 10 {
        push_lit(out, "000");
    } else if n < 100 {
        push_lit(out, "00");
    } else if n < 1000 {
        push_lit(out, "0");
    }
    push_u64_dec(out, n);
    proof {
        assert(out@ =~= old(out)@ + pad4(n as nat));
    }
}

/// The timestamp text for a Unix clock reading in milliseconds:
/// `YYYY-MM-DDThh:mm:ss.mmmZ` in UTC.
pub open spec fn spec_iso8601(ms: nat) -> Seq<u8> {
    let secs = ms / 1000;
    let ymd = spec_ymd(secs / 86400);
    let tod = secs % 86400;
    pad4(ymd.0) + lit("-") + pad2(ymd.1) + lit("-") + pad2(ymd.2) + lit("T") + pad2(tod / 3600)
        + lit(":") + pad2((tod % 3600) / 60) + lit(":") + pad2(tod % 60) + lit(".") + pad3(
        ms % 1000,
    ) + lit("Z")
}

/// Renders the shared import timestamp from a Unix clock reading in
/// milliseconds.
#[verifier::rlimit(60)]
pub fn iso8601_of_unix_millis(ms: u64) -> (r: Vec<u8>)
    ensures
        r@ == spec_iso8601(ms as nat),
{
    let secs = ms / 1000;
    let days = secs / 86400;
    proof {
        assert(days <= 0x0fff_ffff_ffff_ffff) by (nonlinear_arith)
            requires
                days == ms / 1000 / 86400,
                ms <= u64::MAX,
        ;
    }
    let ymd = epoch_days_to_ymd(days);
    let tod = secs % 86400;
    let mut out: Vec<u8> = Vec::new();
    push_pad4(&mut out, ymd.0);
    push_lit(&mut out, "-");
    push_pad2(&mut out, ymd.1);
    push_lit(&mut out, "-");
    push_pad2(&mut out, ymd.2);
    push_lit(&mut out, "T");
    push_pad2(&mut out, tod / 3600);
    push_lit(&mut out, ":");
    push_pad2(&mut out, (tod % 3600) / 60);
    push_lit(&mut out, ":");
    push_pad2(&mut out, tod % 60);
    push_lit(&mut out, ".");
    push_pad3(&mut out, ms % 1000);
    push_lit(&mut out, "Z");
    proof {
        assert(out@ =~= spec_iso8601(ms as nat));
    }
    out
}

} // verus!
