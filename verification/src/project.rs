//! Row projection: a resolved column map plus one raw row yields the
//! normalized record, with the documented per-field fallback defaults and the
//! two-tier stock-code resolution.

use vstd::prelude::*;
use crate::bytes::{
    lit, match_at, trim_ws, trim_quotes, trim_ws_vec, trim_quotes_vec, match_at_exec, push_lit,
};
use crate::coerce::{norm_number, norm_integer, normalize_number, normalize_integer};
use crate::resolve::ColumnMap;

verus! {

/// A cell as the projector reads it: whitespace-trimmed, then quote-stripped.
pub open spec fn clean_cell(c: Seq<u8>) -> Seq<u8> {
    trim_quotes(trim_ws(c))
}

/// The cleaned cell at an optional column index; absent columns and ragged
/// rows give the empty string.
pub open spec fn field_of(row: Seq<Seq<u8>>, idx: Option<usize>) -> Seq<u8> {
    match idx {
        Some(i) => if i < row.len() {
            clean_cell(row[i as int])
        } else {
            Seq::empty()
        },
        None => Seq::empty(),
    }
}

/// Executable field extraction.
pub fn get_field(row: &Vec<Vec<u8>>, idx: Option<usize>) -> (r: Vec<u8>)
    ensures
        r@ == field_of(row.deep_view(), idx),
{
    match idx {
        Some(i) => {
            if i < row.len() {
                let t = trim_ws_vec(row[i].as_slice());
                let r = trim_quotes_vec(t.as_slice());
                proof {
                    assert(row.deep_view()[i as int] == row@[i as int]@);
                }
                r
            } else {
                Vec::new()
            }
        },
        None => Vec::new(),
    }
}

/// Greatest position at which `p` occurs in `s`; `-1` if it never does.
pub open spec fn rfind_sub(s: Seq<u8>, p: Seq<u8>) -> int
    decreases s.len(),
{
    if p.len() == 0 {
        s.len() as int
    } else if s.len() < p.len() {
        -1
    } else if match_at(s, p, s.len() - p.len()) {
        s.len() - p.len()
    } else {
        rfind_sub(s.drop_last(), p)
    }
}

/// Greatest position of byte `b` in `s`; `-1` if absent.
pub open spec fn rfind_byte(s: Seq<u8>, b: u8) -> int
    decreases s.len(),
{
    if s.len() == 0 {
        -1
    } else if s.last() == b {
        s.len() - 1
    } else {
        rfind_byte(s.drop_last(), b)
    }
}

pub proof fn lemma_rfind_sub_valid(s: Seq<u8>, p: Seq<u8>)
    ensures
        rfind_sub(s, p) >= 0 ==> match_at(s, p, rfind_sub(s, p)),
    decreases s.len(),
{
    if p.len() == 0 {
        assert(s.subrange(s.len() as int, s.len() as int) =~= p);
        assert(match_at(s, p, s.len() as int));
    } else if s.len() >= p.len() && !match_at(s, p, s.len() - p.len()) {
        lemma_rfind_sub_valid(s.drop_last(), p);
        let t = s.drop_last();
        let r = rfind_sub(t, p);
        if r >= 0 {
            assert(match_at(t, p, r));
            assert(r + p.len() <= t.len());
            assert(t =~= s.subrange(0, s.len() - 1));
            assert forall|i: int| 0 <= i < p.len() implies #[trigger] t.subrange(
                r,
                r + p.len() as int,
            )[i] == s.subrange(r, r + p.len() as int)[i] by {
                assert(t[r + i] == s[r + i]);
            }
            assert(t.subrange(r, r + p.len() as int) =~= s.subrange(r, r + p.len() as int));
            assert(s.subrange(r, r + p.len() as int) == p);
        }
    }
}

pub proof fn lemma_rfind_byte_valid(s: Seq<u8>, b: u8)
    ensures
        rfind_byte(s, b) >= 0 ==> rfind_byte(s, b) < s.len() && s[rfind_byte(s, b)] == b,
    decreases s.len(),
{
    if s.len() > 0 && s.last() != b {
        lemma_rfind_byte_valid(s.drop_last(), b);
    }
}

/// The stock code derived from a file name: the segment between the last `_`
/// before the last `_part` marker and that marker; empty when the pattern is
/// absent.
pub open spec fn stock_code_of_name(name: Seq<u8>) -> Seq<u8> {
    let p = rfind_sub(name, lit("_part"));
    if p >= 0 {
        let before = name.subrange(0, p);
        let u = rfind_byte(before, 0x5f);
        if u >= 0 {
            before.subrange(u + 1, before.len() as int)
        } else {
            Seq::empty()
        }
    } else {
        Seq::empty()
    }
}

#[verifier::loop_isolation(false)]
fn rfind_sub_exec(s: &[u8], p: &[u8]) -> (ret: (bool, usize))
    ensures
        ret.0 == (rfind_sub(s@, p@) >= 0),
        ret.0 ==> ret.1 == rfind_sub(s@, p@),
{
    let n = s.len();
    let m = p.len();
    if m == 0 {
        proof {
            assert(s@.subrange(n as int, n as int) =~= p@);
            assert(match_at(s@, p@, n as int));
        }
        return (true, n);
    }
    if m > n {
        return (false, 0);
    }
    let mut cur: usize = n;
    proof {
        assert(s@.subrange(0, n as int) =~= s@);
    }
    while cur >= m
        invariant
            m <= n,
            cur <= n,
            rfind_sub(s@, p@) == rfind_sub(s@.subrange(0, cur as int), p@),
        decreases cur,
    {
        let ghost sub = s@.subrange(0, cur as int);
        proof {
            assert(sub.subrange(cur - m, cur as int) =~= s@.subrange(cur - m, cur as int));
        }
        if match_at_exec(s, p, cur - m) {
            proof {
                assert(match_at(sub, p@, cur - m));
                assert(rfind_sub(sub, p@) == cur - m);
            }
            return (true, cur - m);
        }
        proof {
            assert(!match_at(sub, p@, cur - m));
            assert(sub.drop_last() =~= s@.subrange(0, cur - 1));
        }
        cur = cur - 1;
    }
    proof {
        assert(rfind_sub(s@.subrange(0, cur as int), p@) == -1);
    }
    (false, 0)
}

#[verifier::loop_isolation(false)]
fn rfind_byte_exec(s: &[u8], b: u8) -> (ret: (bool, usize))
    ensures
        ret.0 == (rfind_byte(s@, b) >= 0),
        ret.0 ==> ret.1 == rfind_byte(s@, b),
{
    let n = s.len();
    let mut cur: usize = n;
    proof {
        assert(s@.subrange(0, n as int) =~= s@);
    }
    while cur > 0
        invariant
            cur <= n,
            rfind_byte(s@, b) == rfind_byte(s@.subrange(0, cur as int), b),
        decreases cur,
    {
        let ghost sub = s@.subrange(0, cur as int);
        if s[cur - 1] == b {
            proof {
                assert(sub.last() == s@[cur - 1]);
                assert(rfind_byte(sub, b) == cur - 1);
            }
            return (true, cur - 1);
        }
        proof {
            assert(sub.last() == s@[cur - 1]);
            assert(sub.drop_last() =~= s@.subrange(0, cur - 1));
        }
        cur = cur - 1;
    }
    (false, 0)
}

/// Derives the stock code from a file name such as `X_DS1_part1.csv`.
pub fn extract_stock_code_from_filename(name: &[u8]) -> (r: Vec<u8>)
    ensures
        r@ == stock_code_of_name(name@),
{
    let (found, p) = rfind_sub_exec(name, "_part".as_bytes());
    if !found {
        return Vec::new();
    }
    proof {
        lemma_rfind_sub_valid(name@, lit("_part"));
    }
    let before = vstd::slice::slice_subrange(name, 0, p);
    let (ufound, u) = rfind_byte_exec(before, 0x5f);
    if !ufound {
        return Vec::new();
    }
    proof {
        lemma_rfind_byte_valid(before@, 0x5f);
    }
    let piece = vstd::slice::slice_subrange(before, u + 1, p);
    vstd::slice::slice_to_vec(piece)
}

/// The fully resolved output record. String fields are trimmed and
/// quote-stripped; `price`, `weight` and `volume` hold canonical decimal
/// text; the integer fields are nonnegative.
pub struct NormalizedPart {
    pub part_number: Vec<u8>,
    pub description: Vec<u8>,
    pub brand: Vec<u8>,
    pub supplier: Vec<u8>,
    pub price: Vec<u8>,
    pub currency: Vec<u8>,
    pub quantity: i64,
    pub min_order_qty: i64,
    pub stock: Vec<u8>,
    pub stock_code: Vec<u8>,
    pub weight: Vec<u8>,
    pub weight_unit: Vec<u8>,
    pub volume: Vec<u8>,
    pub delivery_days: i64,
    pub category: Vec<u8>,
    pub subcategory: Vec<u8>,
    pub integration: Vec<u8>,
    pub integration_name: Vec<u8>,
    pub file_name: Vec<u8>,
}

/// The mathematical image of a record.
pub struct PartFields {
    pub part_number: Seq<u8>,
    pub description: Seq<u8>,
    pub brand: Seq<u8>,
    pub supplier: Seq<u8>,
    pub price: Seq<u8>,
    pub currency: Seq<u8>,
    pub quantity: i64,
    pub min_order_qty: i64,
    pub stock: Seq<u8>,
    pub stock_code: Seq<u8>,
    pub weight: Seq<u8>,
    pub weight_unit: Seq<u8>,
    pub volume: Seq<u8>,
    pub delivery_days: i64,
    pub category: Seq<u8>,
    pub subcategory: Seq<u8>,
    pub integration: Seq<u8>,
    pub integration_name: Seq<u8>,
    pub file_name: Seq<u8>,
}

pub open spec fn part_view(p: &NormalizedPart) -> PartFields {
    PartFields {
        part_number: p.part_number@,
        description: p.description@,
        brand: p.brand@,
        supplier: p.supplier@,
        price: p.price@,
        currency: p.currency@,
        quantity: p.quantity,
        min_order_qty: p.min_order_qty,
        stock: p.stock@,
        stock_code: p.stock_code@,
        weight: p.weight@,
        weight_unit: p.weight_unit@,
        volume: p.volume@,
        delivery_days: p.delivery_days,
        category: p.category@,
        subcategory: p.subcategory@,
        integration: p.integration@,
        integration_name: p.integration_name@,
        file_name: p.file_name@,
    }
}

/// Shared per-run constants handed to every projection.
pub struct RunContext {
    pub integration: Vec<u8>,
    pub integration_name: Vec<u8>,
    pub file_name: Vec<u8>,
}

/// The record a row projects to: `None` when the resolved part number is
/// empty (the row is skipped). Empty currency, weight-unit and stock cells
/// get the fixed defaults; a minimum order quantity below 1 is floored at 1;
/// an empty stock-code cell falls back to the code derived from the file
/// name.
pub open spec fn spec_project(
    cm: ColumnMap,
    row: Seq<Seq<u8>>,
    integration: Seq<u8>,
    integration_name: Seq<u8>,
    file_name: Seq<u8>,
) -> Option<PartFields> {
    let pn = field_of(row, cm.part_number);
    if pn.len() == 0 {
        None
    } else {
        let raw_sc = field_of(row, cm.stock_code);
        let cur = field_of(row, cm.currency);
        let wu = field_of(row, cm.weight_unit);
        let stock = field_of(row, cm.stock);
        let moq = norm_integer(field_of(row, cm.min_order_qty));
        Some(
            PartFields {
                part_number: pn,
                description: field_of(row, cm.description),
                brand: field_of(row, cm.brand),
                supplier: field_of(row, cm.supplier),
                price: norm_number(field_of(row, cm.price)),
                currency: if cur.len() == 0 {
                    lit("AED")
                } else {
                    cur
                },
                quantity: norm_integer(field_of(row, cm.quantity)),
                min_order_qty: if moq < 1 {
                    1
                } else {
                    moq
                },
                stock: if stock.len() == 0 {
                    lit("unknown")
                } else {
                    stock
                },
                stock_code: if raw_sc.len() == 0 {
                    stock_code_of_name(file_name)
                } else {
                    raw_sc
                },
                weight: norm_number(field_of(row, cm.weight)),
                weight_unit: if wu.len() == 0 {
                    lit("kg")
                } else {
                    wu
                },
                volume: norm_number(field_of(row, cm.volume)),
                delivery_days: norm_integer(field_of(row, cm.delivery_days)),
                category: field_of(row, cm.category),
                subcategory: field_of(row, cm.subcategory),
                integration: integration,
                integration_name: integration_name,
                file_name: file_name,
            },
        )
    }
}

/// Projects one raw row through the column map; `filename_code` must be the
/// stock code already derived from the context's file name.
pub fn project_row(cm: &ColumnMap, row: &Vec<Vec<u8>>, ctx: &RunContext, filename_code: &Vec<u8>)
    -> (r: Option<NormalizedPart>)
    requires
        filename_code@ == stock_code_of_name(ctx.file_name@),
    ensures
        (r is Some) == (spec_project(
            *cm,
            row.deep_view(),
            ctx.integration@,
            ctx.integration_name@,
            ctx.file_name@,
        ) is Some),
        r matches Some(p) ==> spec_project(
            *cm,
            row.deep_view(),
            ctx.integration@,
            ctx.integration_name@,
            ctx.file_name@,
        ) == Some(part_view(&p)),
{
    let pn = get_field(row, cm.part_number);
    if pn.len() == 0 {
        return None;
    }
    let raw_sc = get_field(row, cm.stock_code);
    let stock_code = if raw_sc.len() == 0 {
        filename_code.clone()
    } else {
        raw_sc
    };
    let cur = get_field(row, cm.currency);
    let currency = if cur.len() == 0 {
        lit_vec("AED")
    } else {
        cur
    };
    let wu = get_field(row, cm.weight_unit);
    let weight_unit = if wu.len() == 0 {
        lit_vec("kg")
    } else {
        wu
    };
    let st = get_field(row, cm.stock);
    let stock = if st.len() == 0 {
        lit_vec("unknown")
    } else {
        st
    };
    let moq_raw = {
        let f = get_field(row, cm.min_order_qty);
        normalize_integer(f.as_slice())
    };
    let min_order_qty: i64 = if moq_raw < 1 {
        1
    } else {
        moq_raw
    };
    let price = {
        let f = get_field(row, cm.price);
        normalize_number(f.as_slice())
    };
    let weight = {
        let f = get_field(row, cm.weight);
        normalize_number(f.as_slice())
    };
    let volume = {
        let f = get_field(row, cm.volume);
        normalize_number(f.as_slice())
    };
    let quantity = {
        let f = get_field(row, cm.quantity);
        normalize_integer(f.as_slice())
    };
    let delivery_days = {
        let f = get_field(row, cm.delivery_days);
        normalize_integer(f.as_slice())
    };
    Some(
        NormalizedPart {
            part_number: pn,
            description: get_field(row, cm.description),
            brand: get_field(row, cm.brand),
            supplier: get_field(row, cm.supplier),
            price,
            currency,
            quantity,
            min_order_qty,
            stock,
            stock_code,
            weight,
            weight_unit,
            volume,
            delivery_days,
            category: get_field(row, cm.category),
            subcategory: get_field(row, cm.subcategory),
            integration: ctx.integration.clone(),
            integration_name: ctx.integration_name.clone(),
            file_name: ctx.file_name.clone(),
        },
    )
}

/// The bytes of a literal, as an owned vector.
fn lit_vec(s: &str) -> (r: Vec<u8>)
    ensures
        r@ == lit(s),
{
    let mut r: Vec<u8> = Vec::new();
    push_lit(&mut r, s);
    proof {
        assert(r@ =~= lit(s));
    }
    r
}

/// Default substitution: within any projected record an empty currency,
/// weight-unit or stock cell yields the fixed default, and the minimum order
/// quantity is at least 1.
pub proof fn lemma_default_substitution(
    cm: ColumnMap,
    row: Seq<Seq<u8>>,
    integration: Seq<u8>,
    integration_name: Seq<u8>,
    file_name: Seq<u8>,
)
    requires
        spec_project(cm, row, integration, integration_name, file_name) is Some,
    ensures
        ({
            let p = spec_project(cm, row, integration, integration_name, file_name)->Some_0;
            &&& field_of(row, cm.currency).len() == 0 ==> p.currency == lit("AED")
            &&& field_of(row, cm.weight_unit).len() == 0 ==> p.weight_unit == lit("kg")
            &&& field_of(row, cm.stock).len() == 0 ==> p.stock == lit("unknown")
            &&& p.min_order_qty >= 1
        }),
{
}

/// Stock-code fallback: within any projected record an empty stock-code cell
/// yields the code derived from the file name, a non-empty cell stands as is.
pub proof fn lemma_stock_code_fallback(
    cm: ColumnMap,
    row: Seq<Seq<u8>>,
    integration: Seq<u8>,
    integration_name: Seq<u8>,
    file_name: Seq<u8>,
)
    requires
        spec_project(cm, row, integration, integration_name, file_name) is Some,
    ensures
        ({
            let p = spec_project(cm, row, integration, integration_name, file_name)->Some_0;
            &&& field_of(row, cm.stock_code).len() == 0 ==> p.stock_code == stock_code_of_name(
                file_name,
            )
            &&& field_of(row, cm.stock_code).len() > 0 ==> p.stock_code == field_of(
                row,
                cm.stock_code,
            )
        }),
{
}

} // verus!
