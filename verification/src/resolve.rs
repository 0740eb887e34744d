//! Header-driven column resolution: an ordered, first-match-wins rule list
//! maps arbitrary header spellings onto the fixed semantic schema.

use vstd::prelude::*;
use crate::bytes::{
    lit, contains_seq, lower_seq, trim_ws, trim_quotes, contains_lit, eq_lit, to_lower,
    trim_ws_vec, trim_quotes_vec,
};

verus! {

/// The immutable mapping from semantic field to column index, built once per
/// file from the header row; `None` marks an absent field.
pub struct ColumnMap {
    pub part_number: Option<usize>,
    pub description: Option<usize>,
    pub brand: Option<usize>,
    pub supplier: Option<usize>,
    pub price: Option<usize>,
    pub currency: Option<usize>,
    pub quantity: Option<usize>,
    pub min_order_qty: Option<usize>,
    pub stock: Option<usize>,
    pub stock_code: Option<usize>,
    pub weight: Option<usize>,
    pub weight_unit: Option<usize>,
    pub volume: Option<usize>,
    pub delivery_days: Option<usize>,
    pub category: Option<usize>,
    pub subcategory: Option<usize>,
}

/// A header cell as the rules see it: whitespace-trimmed, lower-cased,
/// quote-stripped.
pub open spec fn norm_header(c: Seq<u8>) -> Seq<u8> {
    trim_quotes(lower_seq(trim_ws(c)))
}

pub open spec fn pred_part_number(h: Seq<u8>) -> bool {
    ||| contains_seq(h, lit("vendor code"))
    ||| contains_seq(h, lit("vendor_code"))
    ||| h == lit("partnumber")
    ||| h == lit("part number")
    ||| h == lit("part_number")
    ||| h == lit("sku")
    ||| h == lit("code")
    ||| h == lit("item number")
    ||| h == lit("item #")
    ||| h == lit("product code")
    ||| h == lit("part #")
}

pub open spec fn pred_description(h: Seq<u8>) -> bool {
    ||| contains_seq(h, lit("title"))
    ||| contains_seq(h, lit("desc"))
    ||| h == lit("name")
    ||| h == lit("product name")
}

pub open spec fn pred_brand(h: Seq<u8>) -> bool {
    ||| contains_seq(h, lit("brand"))
    ||| h == lit("manufacturer")
    ||| h == lit("make")
    ||| h == lit("mfr")
}

pub open spec fn pred_supplier(h: Seq<u8>) -> bool {
    contains_seq(h, lit("supplier"))
}

pub open spec fn pred_price(h: Seq<u8>) -> bool {
    ||| contains_seq(h, lit("price"))
    ||| contains_seq(h, lit("cost"))
}

pub open spec fn pred_currency(h: Seq<u8>) -> bool {
    ||| contains_seq(h, lit("currency"))
    ||| contains_seq(h, lit("curr"))
    ||| h == lit("aed")
    ||| h == lit("usd")
}

pub open spec fn pred_quantity(h: Seq<u8>) -> bool {
    ||| h == lit("quantity")
    ||| h == lit("qty")
}

pub open spec fn pred_min_order_qty(h: Seq<u8>) -> bool {
    ||| contains_seq(h, lit("min_lot"))
    ||| contains_seq(h, lit("min lot"))
    ||| contains_seq(h, lit("minorder"))
    ||| contains_seq(h, lit("min_order"))
    ||| h == lit("moq")
    ||| h == lit("minimum order")
}

pub open spec fn pred_stock(h: Seq<u8>) -> bool {
    h == lit("stock")
}

pub open spec fn pred_stock_code(h: Seq<u8>) -> bool {
    ||| contains_seq(h, lit("stock code"))
    ||| contains_seq(h, lit("stock_code"))
    ||| contains_seq(h, lit("stockcode"))
    ||| h == lit("warehouse")
}

pub open spec fn pred_weight(h: Seq<u8>) -> bool {
    h == lit("weight")
}

pub open spec fn pred_weight_unit(h: Seq<u8>) -> bool {
    ||| contains_seq(h, lit("weight_unit"))
    ||| contains_seq(h, lit("weightunit"))
}

pub open spec fn pred_volume(h: Seq<u8>) -> bool {
    ||| contains_seq(h, lit("volume"))
    ||| h == lit("vol")
}

pub open spec fn pred_delivery_days(h: Seq<u8>) -> bool {
    ||| contains_seq(h, lit("delivery"))
    ||| contains_seq(h, lit("lead_time"))
    ||| contains_seq(h, lit("leadtime"))
}

pub open spec fn pred_category(h: Seq<u8>) -> bool {
    ||| h == lit("category")
    ||| h == lit("cat")
}

pub open spec fn pred_subcategory(h: Seq<u8>) -> bool {
    ||| contains_seq(h, lit("subcategory"))
    ||| contains_seq(h, lit("subcat"))
    ||| contains_seq(h, lit("sub_category"))
}

/// The map with every slot empty.
pub open spec fn empty_map() -> ColumnMap {
    ColumnMap {
        part_number: None,
        description: None,
        brand: None,
        supplier: None,
        price: None,
        currency: None,
        quantity: None,
        min_order_qty: None,
        stock: None,
        stock_code: None,
        weight: None,
        weight_unit: None,
        volume: None,
        delivery_days: None,
        category: None,
        subcategory: None,
    }
}

/// One header claims at most one field: the first rule, in fixed priority
/// order, that matches the normalized header and whose slot is still empty.
/// Part number is checked before every other field.
pub open spec fn assign_header(m: ColumnMap, h: Seq<u8>, i: usize) -> ColumnMap {
    if m.part_number is None && pred_part_number(h) {
        ColumnMap { part_number: Some(i), ..m }
    } else if m.description is None && pred_description(h) {
        ColumnMap { description: Some(i), ..m }
    } else if m.brand is None && pred_brand(h) {
        ColumnMap { brand: Some(i), ..m }
    } else if m.supplier is None && pred_supplier(h) {
        ColumnMap { supplier: Some(i), ..m }
    } else if m.price is None && pred_price(h) {
        ColumnMap { price: Some(i), ..m }
    } else if m.currency is None && pred_currency(h) {
        ColumnMap { currency: Some(i), ..m }
    } else if m.quantity is None && pred_quantity(h) {
        ColumnMap { quantity: Some(i), ..m }
    } else if m.min_order_qty is None && pred_min_order_qty(h) {
        ColumnMap { min_order_qty: Some(i), ..m }
    } else if m.stock is None && pred_stock(h) {
        ColumnMap { stock: Some(i), ..m }
    } else if m.stock_code is None && pred_stock_code(h) {
        ColumnMap { stock_code: Some(i), ..m }
    } else if m.weight is None && pred_weight(h) {
        ColumnMap { weight: Some(i), ..m }
    } else if m.weight_unit is None && pred_weight_unit(h) {
        ColumnMap { weight_unit: Some(i), ..m }
    } else if m.volume is None && pred_volume(h) {
        ColumnMap { volume: Some(i), ..m }
    } else if m.delivery_days is None && pred_delivery_days(h) {
        ColumnMap { delivery_days: Some(i), ..m }
    } else if m.category is None && pred_category(h) {
        ColumnMap { category: Some(i), ..m }
    } else if m.subcategory is None && pred_subcategory(h) {
        ColumnMap { subcategory: Some(i), ..m }
    } else {
        m
    }
}

/// The map after the first `n` headers have been examined, left to right.
pub open spec fn resolve_prefix(headers: Seq<Seq<u8>>, n: int) -> ColumnMap
    decreases n,
{
    if n <= 0 {
        empty_map()
    } else {
        assign_header(
            resolve_prefix(headers, n - 1),
            norm_header(headers[n - 1]),
            (n - 1) as usize,
        )
    }
}

/// The resolved map for a whole header row.
pub open spec fn resolve_headers(headers: Seq<Seq<u8>>) -> ColumnMap {
    resolve_prefix(headers, headers.len() as int)
}

/// Every slot filled in `m1` holds the same index in `m2`.
pub open spec fn keeps_filled_slots(m1: ColumnMap, m2: ColumnMap) -> bool {
    &&& m1.part_number is Some ==> m2.part_number == m1.part_number
    &&& m1.description is Some ==> m2.description == m1.description
    &&& m1.brand is Some ==> m2.brand == m1.brand
    &&& m1.supplier is Some ==> m2.supplier == m1.supplier
    &&& m1.price is Some ==> m2.price == m1.price
    &&& m1.currency is Some ==> m2.currency == m1.currency
    &&& m1.quantity is Some ==> m2.quantity == m1.quantity
    &&& m1.min_order_qty is Some ==> m2.min_order_qty == m1.min_order_qty
    &&& m1.stock is Some ==> m2.stock == m1.stock
    &&& m1.stock_code is Some ==> m2.stock_code == m1.stock_code
    &&& m1.weight is Some ==> m2.weight == m1.weight
    &&& m1.weight_unit is Some ==> m2.weight_unit == m1.weight_unit
    &&& m1.volume is Some ==> m2.volume == m1.volume
    &&& m1.delivery_days is Some ==> m2.delivery_days == m1.delivery_days
    &&& m1.category is Some ==> m2.category == m1.category
    &&& m1.subcategory is Some ==> m2.subcategory == m1.subcategory
}

/// Resolution is order-stable: once a slot is filled by some header, no later
/// header reassigns it — the map after `b` headers keeps every slot the map
/// after `a` headers had already filled.
pub proof fn lemma_no_reassignment(headers: Seq<Seq<u8>>, a: int, b: int)
    requires
        0 <= a <= b,
    ensures
        keeps_filled_slots(resolve_prefix(headers, a), resolve_prefix(headers, b)),
    decreases b - a,
{
    if a < b {
        lemma_no_reassignment(headers, a, b - 1);
    }
}

/// The index of the first header before `n` that matches the part-number
/// rule; `-1` if there is none.
pub open spec fn first_pn_match(headers: Seq<Seq<u8>>, n: int) -> int
    decreases n,
{
    if n <= 0 {
        -1
    } else if first_pn_match(headers, n - 1) >= 0 {
        first_pn_match(headers, n - 1)
    } else if pred_part_number(norm_header(headers[n - 1])) {
        n - 1
    } else {
        -1
    }
}

proof fn lemma_first_pn_char(headers: Seq<Seq<u8>>, n: int)
    requires
        0 <= n,
    ensures
        (first_pn_match(headers, n) == -1) == (forall|j: int|
            0 <= j < n ==> !pred_part_number(norm_header(headers[j]))),
        first_pn_match(headers, n) >= 0 ==> 0 <= first_pn_match(headers, n) < n
            && pred_part_number(norm_header(headers[first_pn_match(headers, n)])) && (forall|
            j: int,
        |
            0 <= j < first_pn_match(headers, n) ==> !pred_part_number(norm_header(headers[j]))),
    decreases n,
{
    if n > 0 {
        lemma_first_pn_char(headers, n - 1);
    }
}

proof fn lemma_pn_prefix(headers: Seq<Seq<u8>>, n: int)
    requires
        0 <= n,
    ensures
        resolve_prefix(headers, n).part_number == (if first_pn_match(headers, n) >= 0 {
            Some(first_pn_match(headers, n) as usize)
        } else {
            None::<usize>
        }),
    decreases n,
{
    if n > 0 {
        lemma_pn_prefix(headers, n - 1);
        lemma_first_pn_char(headers, n - 1);
    }
}

/// The part-number slot is empty exactly when no header matches the
/// part-number rule.
pub proof fn lemma_part_number_none(headers: Seq<Seq<u8>>)
    ensures
        (resolve_headers(headers).part_number is None) == (forall|j: int|
            0 <= j < headers.len() ==> !pred_part_number(norm_header(headers[j]))),
{
    let n = headers.len() as int;
    lemma_pn_prefix(headers, n);
    lemma_first_pn_char(headers, n);
}

/// The part-number slot resolves to the first header matching the
/// part-number rule, and to `None` exactly when no header matches it.
pub proof fn lemma_part_number_first_match(headers: Seq<Seq<u8>>)
    requires
        headers.len() <= usize::MAX,
    ensures
        (resolve_headers(headers).part_number is None) == (forall|j: int|
            0 <= j < headers.len() ==> !pred_part_number(norm_header(headers[j]))),
        resolve_headers(headers).part_number matches Some(i) ==> i < headers.len()
            && pred_part_number(norm_header(headers[i as int])) && (forall|j: int|
            0 <= j < i ==> !pred_part_number(norm_header(headers[j]))),
{
    let n = headers.len() as int;
    lemma_pn_prefix(headers, n);
    lemma_first_pn_char(headers, n);
}

fn is_part_number_header(h: &[u8]) -> (r: bool)
    ensures
        r == pred_part_number(h@),
{
    contains_lit(h, "vendor code") || contains_lit(h, "vendor_code") || eq_lit(h, "partnumber")
        || eq_lit(h, "part number") || eq_lit(h, "part_number") || eq_lit(h, "sku") || eq_lit(
        h,
        "code",
    ) || eq_lit(h, "item number") || eq_lit(h, "item #") || eq_lit(h, "product code") || eq_lit(
        h,
        "part #",
    )
}

fn is_description_header(h: &[u8]) -> (r: bool)
    ensures
        r == pred_description(h@),
{
    contains_lit(h, "title") || contains_lit(h, "desc") || eq_lit(h, "name") || eq_lit(
        h,
        "product name",
    )
}

fn is_brand_header(h: &[u8]) -> (r: bool)
    ensures
        r == pred_brand(h@),
{
    contains_lit(h, "brand") || eq_lit(h, "manufacturer") || eq_lit(h, "make") || eq_lit(h, "mfr")
}

fn is_supplier_header(h: &[u8]) -> (r: bool)
    ensures
        r == pred_supplier(h@),
{
    contains_lit(h, "supplier")
}

fn is_price_header(h: &[u8]) -> (r: bool)
    ensures
        r == pred_price(h@),
{
    contains_lit(h, "price") || contains_lit(h, "cost")
}

fn is_currency_header(h: &[u8]) -> (r: bool)
    ensures
        r == pred_currency(h@),
{
    contains_lit(h, "currency") || contains_lit(h, "curr") || eq_lit(h, "aed") || eq_lit(h, "usd")
}

fn is_quantity_header(h: &[u8]) -> (r: bool)
    ensures
        r == pred_quantity(h@),
{
    eq_lit(h, "quantity") || eq_lit(h, "qty")
}

fn is_min_order_qty_header(h: &[u8]) -> (r: bool)
    ensures
        r == pred_min_order_qty(h@),
{
    contains_lit(h, "min_lot") || contains_lit(h, "min lot") || contains_lit(h, "minorder")
        || contains_lit(h, "min_order") || eq_lit(h, "moq") || eq_lit(h, "minimum order")
}

fn is_stock_header(h: &[u8]) -> (r: bool)
    ensures
        r == pred_stock(h@),
{
    eq_lit(h, "stock")
}

fn is_stock_code_header(h: &[u8]) -> (r: bool)
    ensures
        r == pred_stock_code(h@),
{
    contains_lit(h, "stock code") || contains_lit(h, "stock_code") || contains_lit(h, "stockcode")
        || eq_lit(h, "warehouse")
}

fn is_weight_header(h: &[u8]) -> (r: bool)
    ensures
        r == pred_weight(h@),
{
    eq_lit(h, "weight")
}

fn is_weight_unit_header(h: &[u8]) -> (r: bool)
    ensures
        r == pred_weight_unit(h@),
{
    contains_lit(h, "weight_unit") || contains_lit(h, "weightunit")
}

fn is_volume_header(h: &[u8]) -> (r: bool)
    ensures
        r == pred_volume(h@),
{
    contains_lit(h, "volume") || eq_lit(h, "vol")
}

fn is_delivery_days_header(h: &[u8]) -> (r: bool)
    ensures
        r == pred_delivery_days(h@),
{
    contains_lit(h, "delivery") || contains_lit(h, "lead_time") || contains_lit(h, "leadtime")
}

fn is_category_header(h: &[u8]) -> (r: bool)
    ensures
        r == pred_category(h@),
{
    eq_lit(h, "category") || eq_lit(h, "cat")
}

fn is_subcategory_header(h: &[u8]) -> (r: bool)
    ensures
        r == pred_subcategory(h@),
{
    contains_lit(h, "subcategory") || contains_lit(h, "subcat") || contains_lit(h, "sub_category")
}

/// Normalizes one header cell.
fn norm_header_vec(c: &[u8]) -> (r: Vec<u8>)
    ensures
        r@ == norm_header(c@),
{
    let t = trim_ws_vec(c);
    let l = to_lower(t.as_slice());
    trim_quotes_vec(l.as_slice())
}

impl ColumnMap {
    /// Builds the mapping from the header row: headers are examined left to
    /// right; the first header matching a field's rule claims that field, and
    /// a filled slot is never reassigned.
    pub fn from_headers(headers: &Vec<Vec<u8>>) -> (m: ColumnMap)
        ensures
            m == resolve_headers(headers.deep_view()),
    {
        let ghost dv = headers.deep_view();
        proof {
            assert(dv.len() == headers@.len());
        }
        let mut m = ColumnMap {
            part_number: None,
            description: None,
            brand: None,
            supplier: None,
            price: None,
            currency: None,
            quantity: None,
            min_order_qty: None,
            stock: None,
            stock_code: None,
            weight: None,
            weight_unit: None,
            volume: None,
            delivery_days: None,
            category: None,
            subcategory: None,
        };
        let n = headers.len();
        let mut i: usize = 0;
        while i < n
            invariant
                0 <= i <= n,
                n == headers@.len(),
                dv == headers.deep_view(),
                m == resolve_prefix(dv, i as int),
            decreases n - i,
        {
            let h = norm_header_vec(headers[i].as_slice());
            proof {
                assert(headers@[i as int]@ == dv[i as int]);
                assert(h@ == norm_header(dv[i as int]));
            }
            let hs = h.as_slice();
            if m.part_number.is_none() && is_part_number_header(hs) {
                m.part_number = Some(i);
            } else if m.description.is_none() && is_description_header(hs) {
                m.description = Some(i);
            } else if m.brand.is_none() && is_brand_header(hs) {
                m.brand = Some(i);
            } else if m.supplier.is_none() && is_supplier_header(hs) {
                m.supplier = Some(i);
            } else if m.price.is_none() && is_price_header(hs) {
                m.price = Some(i);
            } else if m.currency.is_none() && is_currency_header(hs) {
                m.currency = Some(i);
            } else if m.quantity.is_none() && is_quantity_header(hs) {
                m.quantity = Some(i);
            } else if m.min_order_qty.is_none() && is_min_order_qty_header(hs) {
                m.min_order_qty = Some(i);
            } else if m.stock.is_none() && is_stock_header(hs) {
                m.stock = Some(i);
            } else if m.stock_code.is_none() && is_stock_code_header(hs) {
                m.stock_code = Some(i);
            } else if m.weight.is_none() && is_weight_header(hs) {
                m.weight = Some(i);
            } else if m.weight_unit.is_none() && is_weight_unit_header(hs) {
                m.weight_unit = Some(i);
            } else if m.volume.is_none() && is_volume_header(hs) {
                m.volume = Some(i);
            } else if m.delivery_days.is_none() && is_delivery_days_header(hs) {
                m.delivery_days = Some(i);
            } else if m.category.is_none() && is_category_header(hs) {
                m.category = Some(i);
            } else if m.subcategory.is_none() && is_subcategory_header(hs) {
                m.subcategory = Some(i);
            }
            i = i + 1;
            proof {
                assert(m == resolve_prefix(dv, i as int));
            }
        }
        m
    }
}

} // verus!
