use rust_transform::emit::{push_bulk_doc_line, push_ndjson_line};
use rust_transform::project::{extract_stock_code_from_filename, project_row, RunContext};
use rust_transform::resolve::ColumnMap;

fn headers(names: &[&str]) -> Vec<Vec<u8>> {
    names.iter().map(|s| s.as_bytes().to_vec()).collect()
}

fn row(cells: &[&str]) -> Vec<Vec<u8>> {
    cells.iter().map(|s| s.as_bytes().to_vec()).collect()
}

fn ctx(file_name: &str) -> RunContext {
    RunContext {
        integration: b"int-1".to_vec(),
        integration_name: b"Integration One".to_vec(),
        file_name: file_name.as_bytes().to_vec(),
    }
}

#[test]
fn stock_code_from_filename() {
    let code = extract_stock_code_from_filename(b"APMG price 1 day_DS1_part1.csv");
    assert_eq!(code, b"DS1".to_vec());
    assert_eq!(extract_stock_code_from_filename(b"plain.csv"), Vec::<u8>::new());
    assert_eq!(extract_stock_code_from_filename(b"x_part1.csv"), Vec::<u8>::new());
    assert_eq!(extract_stock_code_from_filename(b"a_b_DS2_part9.csv"), b"DS2".to_vec());
}

#[test]
fn stock_code_fallback_for_empty_cell() {
    let cm = ColumnMap::from_headers(&headers(&["part_number", "stock code"]));
    let c = ctx("APMG price 1 day_DS1_part1.csv");
    let code = extract_stock_code_from_filename(&c.file_name);
    let p = project_row(&cm, &row(&["A1", ""]), &c, &code).unwrap();
    assert_eq!(p.stock_code, b"DS1".to_vec());
    let p = project_row(&cm, &row(&["A1", "W7"]), &c, &code).unwrap();
    assert_eq!(p.stock_code, b"W7".to_vec());
}

#[test]
fn default_substitution() {
    let cm = ColumnMap::from_headers(&headers(&[
        "part_number",
        "currency",
        "weight_unit",
        "stock",
        "moq",
    ]));
    let c = ctx("input.csv");
    let code = extract_stock_code_from_filename(&c.file_name);
    let p = project_row(&cm, &row(&["A1", "", "", "", "0"]), &c, &code).unwrap();
    assert_eq!(p.currency, b"AED".to_vec());
    assert_eq!(p.weight_unit, b"kg".to_vec());
    assert_eq!(p.stock, b"unknown".to_vec());
    assert_eq!(p.min_order_qty, 1);
    let p = project_row(&cm, &row(&["A1", "USD", "lb", "in stock", "5"]), &c, &code).unwrap();
    assert_eq!(p.currency, b"USD".to_vec());
    assert_eq!(p.weight_unit, b"lb".to_vec());
    assert_eq!(p.stock, b"in stock".to_vec());
    assert_eq!(p.min_order_qty, 5);
}

#[test]
fn empty_part_number_skips_row() {
    let cm = ColumnMap::from_headers(&headers(&["part_number", "title"]));
    let c = ctx("input.csv");
    let code = extract_stock_code_from_filename(&c.file_name);
    assert!(project_row(&cm, &row(&["", "thing"]), &c, &code).is_none());
    assert!(project_row(&cm, &row(&["  ", "thing"]), &c, &code).is_none());
    assert!(project_row(&cm, &row(&["A1", "thing"]), &c, &code).is_some());
}

#[test]
fn record_round_trip_shares_all_fields_but_timestamp() {
    let cm = ColumnMap::from_headers(&headers(&[
        "part_number",
        "title",
        "brand",
        "supplier",
        "price",
        "currency",
        "qty",
        "moq",
        "stock",
        "stock code",
        "weight",
        "weight_unit",
        "volume",
        "delivery",
        "category",
        "subcategory",
    ]));
    let c = ctx("file_DS3_part2.csv");
    let code = extract_stock_code_from_filename(&c.file_name);
    let p = project_row(
        &cm,
        &row(&[
            "A-99",
            "Widget \"Pro\" Max",
            "Acme",
            "Supplies Inc",
            "1,234.56",
            "USD",
            "7",
            "2",
            "yes",
            "W1",
            "12,5",
            "lb",
            "0.3",
            "5 days",
            "tools",
            "hand tools",
        ]),
        &c,
        &code,
    )
    .unwrap();
    let mut nd: Vec<u8> = Vec::new();
    push_ndjson_line(&mut nd, &p, b"2024-01-01T00:00:00.000Z");
    let mut bd: Vec<u8> = Vec::new();
    push_bulk_doc_line(&mut bd, &p);
    let nd_v: serde_json::Value = serde_json::from_slice(&nd).unwrap();
    let bd_v: serde_json::Value = serde_json::from_slice(&bd).unwrap();
    let nd_obj = nd_v.as_object().unwrap();
    let bd_obj = bd_v.as_object().unwrap();
    assert_eq!(nd_obj.len(), bd_obj.len() + 1);
    assert!(nd_obj.contains_key("importedAt"));
    assert!(!bd_obj.contains_key("importedAt"));
    for (k, v) in bd_obj {
        assert_eq!(nd_obj.get(k).unwrap(), v, "field {} diverged", k);
    }
    assert_eq!(nd_obj["partNumber"], "A-99");
    assert_eq!(nd_obj["description"], "Widget \"Pro\" Max");
    assert_eq!(nd_obj["price"], 1234.56);
    assert_eq!(nd_obj["weight"], 12.5);
    assert_eq!(nd_obj["quantity"], 7);
    assert_eq!(nd_obj["stockCode"], "W1");
    assert_eq!(nd_obj["fileName"], "file_DS3_part2.csv");
    assert_eq!(nd_obj["importedAt"], "2024-01-01T00:00:00.000Z");
}
