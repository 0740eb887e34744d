//! Emission of the two output record shapes: the document-store line (all
//! fields plus the import timestamp) and the search-engine bulk pair (action
//! line plus the same document without the timestamp). Both lines are
//! projections of one member sequence, so shared fields can never diverge.

use vstd::prelude::*;
use crate::bytes::{lit, push_lit};
use crate::json::{
    esc_seq, str_member, num_member, int_member, push_str_member, push_num_member,
    push_int_member, push_escaped,
};
use crate::project::{PartFields, NormalizedPart, part_view};

verus! {

/// The integer fields a record may be emitted with.
pub open spec fn emittable(p: PartFields) -> bool {
    p.quantity >= 0 && p.min_order_qty >= 0 && p.delivery_days >= 0
}

/// Members from the part number through the currency.
pub open spec fn members_a(p: PartFields) -> Seq<u8> {
    lit("{") + str_member("partNumber", p.part_number) + lit(",") + str_member(
        "description",
        p.description,
    ) + lit(",") + str_member("brand", p.brand) + lit(",") + str_member("supplier", p.supplier)
        + lit(",") + num_member("price", p.price) + lit(",") + str_member("currency", p.currency)
}

/// Members from the quantity through the weight unit.
pub open spec fn members_b(p: PartFields) -> Seq<u8> {
    lit(",") + int_member("quantity", p.quantity as nat) + lit(",") + int_member(
        "minOrderQty",
        p.min_order_qty as nat,
    ) + lit(",") + str_member("stock", p.stock) + lit(",") + str_member("stockCode", p.stock_code)
        + lit(",") + num_member("weight", p.weight) + lit(",") + str_member(
        "weightUnit",
        p.weight_unit,
    )
}

/// Members from the volume through the file name.
pub open spec fn members_c(p: PartFields) -> Seq<u8> {
    lit(",") + num_member("volume", p.volume) + lit(",") + int_member(
        "deliveryDays",
        p.delivery_days as nat,
    ) + lit(",") + str_member("category", p.category) + lit(",") + str_member(
        "subcategory",
        p.subcategory,
    ) + lit(",") + str_member("integration", p.integration) + lit(",") + str_member(
        "integrationName",
        p.integration_name,
    ) + lit(",") + str_member("fileName", p.file_name)
}

/// The shared member sequence of both record shapes, without a closing brace.
pub open spec fn doc_members(p: PartFields) -> Seq<u8> {
    members_a(p) + members_b(p) + members_c(p)
}

/// One document-store line: every field plus the import timestamp.
pub open spec fn ndjson_line(p: PartFields, imported_at: Seq<u8>) -> Seq<u8> {
    doc_members(p) + lit(",") + str_member("importedAt", imported_at) + lit("}\n")
}

/// One bulk document line: the same members, no timestamp.
pub open spec fn bulk_doc_line(p: PartFields) -> Seq<u8> {
    doc_members(p) + lit("}\n")
}

/// The per-file action line naming the target index.
pub open spec fn action_line(index: Seq<u8>) -> Seq<u8> {
    lit("{\"index\":{\"_index\":\"") + esc_seq(index) + lit("\"}}\n")
}

/// Row round trip: the two record shapes emitted for one row are projections
/// of the one member sequence `doc_members`; they agree on every field and
/// differ exactly in the trailing `importedAt` member, present only in the
/// document-store line.
pub proof fn lemma_record_round_trip(p: PartFields, imported_at: Seq<u8>)
    ensures
        ndjson_line(p, imported_at) == doc_members(p) + lit(",") + str_member(
            "importedAt",
            imported_at,
        ) + lit("}\n"),
        bulk_doc_line(p) == doc_members(p) + lit("}\n"),
        ndjson_line(p, imported_at).subrange(0, doc_members(p).len() as int) == bulk_doc_line(
            p,
        ).subrange(0, doc_members(p).len() as int),
{
    assert(ndjson_line(p, imported_at).subrange(0, doc_members(p).len() as int) =~= doc_members(
        p,
    ));
    assert(bulk_doc_line(p).subrange(0, doc_members(p).len() as int) =~= doc_members(p));
}

#[verifier::rlimit(60)]
fn push_members_a(out: &mut Vec<u8>, p: &NormalizedPart)
    ensures
        final(out)@ == old(out)@ + members_a(part_view(p)),
{
    push_lit(out, "{");
    push_str_member(out, "partNumber", p.part_number.as_slice());
    push_lit(out, ",");
    push_str_member(out, "description", p.description.as_slice());
    push_lit(out, ",");
    push_str_member(out, "brand", p.brand.as_slice());
    push_lit(out, ",");
    push_str_member(out, "supplier", p.supplier.as_slice());
    push_lit(out, ",");
    push_num_member(out, "price", p.price.as_slice());
    push_lit(out, ",");
    push_str_member(out, "currency", p.currency.as_slice());
    proof {
        assert(out@ =~= old(out)@ + members_a(part_view(p)));
    }
}

#[verifier::rlimit(60)]
fn push_members_b(out: &mut Vec<u8>, p: &NormalizedPart)
    requires
        emittable(part_view(p)),
    ensures
        final(out)@ == old(out)@ + members_b(part_view(p)),
{
    push_lit(out, ",");
    push_int_member(out, "quantity", p.quantity);
    push_lit(out, ",");
    push_int_member(out, "minOrderQty", p.min_order_qty);
    push_lit(out, ",");
    push_str_member(out, "stock", p.stock.as_slice());
    push_lit(out, ",");
    push_str_member(out, "stockCode", p.stock_code.as_slice());
    push_lit(out, ",");
    push_num_member(out, "weight", p.weight.as_slice());
    push_lit(out, ",");
    push_str_member(out, "weightUnit", p.weight_unit.as_slice());
    proof {
        assert(out@ =~= old(out)@ + members_b(part_view(p)));
    }
}

#[verifier::rlimit(60)]
fn push_members_c(out: &mut Vec<u8>, p: &NormalizedPart)
    requires
        emittable(part_view(p)),
    ensures
        final(out)@ == old(out)@ + members_c(part_view(p)),
{
    push_lit(out, ",");
    push_num_member(out, "volume", p.volume.as_slice());
    push_lit(out, ",");
    push_int_member(out, "deliveryDays", p.delivery_days);
    push_lit(out, ",");
    push_str_member(out, "category", p.category.as_slice());
    push_lit(out, ",");
    push_str_member(out, "subcategory", p.subcategory.as_slice());
    push_lit(out, ",");
    push_str_member(out, "integration", p.integration.as_slice());
    push_lit(out, ",");
    push_str_member(out, "integrationName", p.integration_name.as_slice());
    push_lit(out, ",");
    push_str_member(out, "fileName", p.file_name.as_slice());
    proof {
        assert(out@ =~= old(out)@ + members_c(part_view(p)));
    }
}

/// Appends the shared member sequence.
fn push_doc_members(out: &mut Vec<u8>, p: &NormalizedPart)
    requires
        emittable(part_view(p)),
    ensures
        final(out)@ == old(out)@ + doc_members(part_view(p)),
{
    push_members_a(out, p);
    push_members_b(out, p);
    push_members_c(out, p);
    proof {
        assert(out@ =~= old(out)@ + doc_members(part_view(p)));
    }
}

/// Appends one document-store line for `p`.
pub fn push_ndjson_line(out: &mut Vec<u8>, p: &NormalizedPart, imported_at: &[u8])
    requires
        emittable(part_view(p)),
    ensures
        final(out)@ == old(out)@ + ndjson_line(part_view(p), imported_at@),
{
    push_doc_members(out, p);
    push_lit(out, ",");
    push_str_member(out, "importedAt", imported_at);
    push_lit(out, "}\n");
    proof {
        assert(out@ =~= old(out)@ + ndjson_line(part_view(p), imported_at@));
    }
}

/// Appends one bulk document line for `p`.
pub fn push_bulk_doc_line(out: &mut Vec<u8>, p: &NormalizedPart)
    requires
        emittable(part_view(p)),
    ensures
        final(out)@ == old(out)@ + bulk_doc_line(part_view(p)),
{
    push_doc_members(out, p);
    push_lit(out, "}\n");
    proof {
        assert(out@ =~= old(out)@ + bulk_doc_line(part_view(p)));
    }
}

/// Appends the action line for the configured index.
pub fn push_action_line(out: &mut Vec<u8>, index: &[u8])
    ensures
        final(out)@ == old(out)@ + action_line(index@),
{
    push_lit(out, "{\"index\":{\"_index\":\"");
    push_escaped(out, index);
    push_lit(out, "\"}}\n");
    proof {
        assert(out@ =~= old(out)@ + action_line(index@));
    }
}

} // verus!
