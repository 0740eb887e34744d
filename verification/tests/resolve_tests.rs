use rust_transform::resolve::ColumnMap;

fn headers(names: &[&str]) -> Vec<Vec<u8>> {
    names.iter().map(|s| s.as_bytes().to_vec()).collect()
}

#[test]
fn order_stable_resolution() {
    let cm = ColumnMap::from_headers(&headers(&["Vendor Code", "Title", "Stock", "Stock Code"]));
    assert_eq!(cm.part_number, Some(0));
    assert_eq!(cm.description, Some(1));
    assert_eq!(cm.stock, Some(2));
    assert_eq!(cm.stock_code, Some(3));
}

#[test]
fn first_match_wins() {
    // Both headers match the description rule; the first keeps the slot.
    let cm = ColumnMap::from_headers(&headers(&["Title", "Description"]));
    assert_eq!(cm.description, Some(0));
}

#[test]
fn part_number_checked_before_other_fields() {
    // "Product Code" matches the part-number rule even though a later rule
    // could also claim it.
    let cm = ColumnMap::from_headers(&headers(&["Product Code"]));
    assert_eq!(cm.part_number, Some(0));
}

#[test]
fn lower_casing_trimming_and_quotes() {
    let cm = ColumnMap::from_headers(&headers(&["  \"SKU\"  ", "'PRICE LIST'"]));
    assert_eq!(cm.part_number, Some(0));
    assert_eq!(cm.price, Some(1));
}

#[test]
fn no_part_number_synonym_leaves_slot_empty() {
    let cm = ColumnMap::from_headers(&headers(&["foo", "bar", "baz"]));
    assert_eq!(cm.part_number, None);
}

#[test]
fn stock_and_stock_code_are_distinct_slots() {
    let cm = ColumnMap::from_headers(&headers(&["Stock Code", "Stock"]));
    assert_eq!(cm.stock_code, Some(0));
    assert_eq!(cm.stock, Some(1));
}

#[test]
fn full_schema_resolution() {
    let cm = ColumnMap::from_headers(&headers(&[
        "part_number",
        "name",
        "Brand",
        "Supplier",
        "Unit Cost",
        "Currency",
        "Qty",
        "MOQ",
        "stock",
        "Warehouse",
        "Weight",
        "weight_unit",
        "Volume",
        "Delivery",
        "Category",
        "Subcategory",
    ]));
    assert_eq!(cm.part_number, Some(0));
    assert_eq!(cm.description, Some(1));
    assert_eq!(cm.brand, Some(2));
    assert_eq!(cm.supplier, Some(3));
    assert_eq!(cm.price, Some(4));
    assert_eq!(cm.currency, Some(5));
    assert_eq!(cm.quantity, Some(6));
    assert_eq!(cm.min_order_qty, Some(7));
    assert_eq!(cm.stock, Some(8));
    assert_eq!(cm.stock_code, Some(9));
    assert_eq!(cm.weight, Some(10));
    assert_eq!(cm.weight_unit, Some(11));
    assert_eq!(cm.volume, Some(12));
    assert_eq!(cm.delivery_days, Some(13));
    assert_eq!(cm.category, Some(14));
    assert_eq!(cm.subcategory, Some(15));
}
