use rust_transform::pipeline::process_file_content;
use rust_transform::project::RunContext;
use rust_transform::report::{aggregate, FileStat};

fn ctx(file_name: &str) -> RunContext {
    RunContext {
        integration: b"id1".to_vec(),
        integration_name: b"Name".to_vec(),
        file_name: file_name.as_bytes().to_vec(),
    }
}

fn lines(bytes: &[u8]) -> Vec<String> {
    String::from_utf8(bytes.to_vec())
        .unwrap()
        .lines()
        .map(|s| s.to_string())
        .collect()
}

#[test]
fn end_to_end_two_rows() {
    let content = b"part_number,description,price\nA1,Widget,10\nB2,Gadget,20\n";
    let ts = b"2024-06-01T12:00:00.000Z".to_vec();
    let index = b"parts".to_vec();
    let out = process_file_content(content, &ctx("input.csv"), &ts, &index);
    assert!(!out.part_number_missing);
    assert_eq!(out.records, 2);
    let nd = lines(&out.ndjson);
    assert_eq!(nd.len(), 2);
    let bk = lines(&out.bulk);
    assert_eq!(bk.len(), 4);
    assert_eq!(bk[0], "{\"index\":{\"_index\":\"parts\"}}");
    assert_eq!(bk[2], bk[0]);
    for line in &nd {
        let v: serde_json::Value = serde_json::from_str(line).unwrap();
        assert!(v.is_object());
    }
    let first: serde_json::Value = serde_json::from_str(&nd[0]).unwrap();
    assert_eq!(first["partNumber"], "A1");
    assert_eq!(first["description"], "Widget");
    assert_eq!(first["price"], 10.0);
    // The summary over this single file reports two records and no errors.
    let stats = vec![FileStat {
        file_name: b"input.csv".to_vec(),
        records: out.records,
        ndjson_bytes: out.ndjson.len() as u64,
        bulk_bytes: out.bulk.len() as u64,
        duration_ms: 3,
        failed: out.part_number_missing,
    }];
    let totals = aggregate(&stats);
    assert_eq!(totals.records, 2);
    assert_eq!(totals.errors, 0);
}

#[test]
fn missing_part_number_yields_zero_records() {
    let content = b"foo,bar\n1,2\n3,4\n";
    let ts = b"t".to_vec();
    let index = b"parts".to_vec();
    let out = process_file_content(content, &ctx("input.csv"), &ts, &index);
    assert!(out.part_number_missing);
    assert_eq!(out.records, 0);
    assert!(out.ndjson.is_empty());
    assert!(out.bulk.is_empty());
}

#[test]
fn empty_file_is_rejected() {
    let out = process_file_content(b"", &ctx("x.csv"), &b"t".to_vec(), &b"i".to_vec());
    assert!(out.part_number_missing);
    assert_eq!(out.records, 0);
}

#[test]
fn rows_with_empty_part_number_are_skipped() {
    let content = b"part_number,price\nA1,5\n,6\nB2,7\n";
    let out = process_file_content(content, &ctx("x.csv"), &b"t".to_vec(), &b"i".to_vec());
    assert_eq!(out.records, 2);
    assert_eq!(lines(&out.ndjson).len(), 2);
}

#[test]
fn semicolon_file_is_sniffed() {
    let content = b"part_number;price\nA1;10\n";
    let out = process_file_content(content, &ctx("x.csv"), &b"t".to_vec(), &b"i".to_vec());
    assert_eq!(out.records, 1);
    let v: serde_json::Value = serde_json::from_str(&lines(&out.ndjson)[0]).unwrap();
    assert_eq!(v["partNumber"], "A1");
    assert_eq!(v["price"], 10.0);
}

#[test]
fn identical_runs_are_byte_identical() {
    let content = b"part_number,description\nA1,x\nB2,y\n";
    let ts = b"2024-06-01T12:00:00.000Z".to_vec();
    let index = b"parts".to_vec();
    let a = process_file_content(content, &ctx("in.csv"), &ts, &index);
    let b = process_file_content(content, &ctx("in.csv"), &ts, &index);
    assert_eq!(a.ndjson, b.ndjson);
    assert_eq!(a.bulk, b.bulk);
    assert_eq!(a.records, b.records);
}

#[test]
fn timestamp_changes_only_imported_at() {
    let content = b"part_number,description\nA1,x\nB2,y\n";
    let index = b"parts".to_vec();
    let a = process_file_content(content, &ctx("in.csv"), &b"T1".to_vec(), &index);
    let b = process_file_content(content, &ctx("in.csv"), &b"T2".to_vec(), &index);
    // The bulk body carries no timestamp and is byte-identical.
    assert_eq!(a.bulk, b.bulk);
    assert_eq!(a.records, b.records);
    // The document-store lines agree on everything except importedAt.
    let la = lines(&a.ndjson);
    let lb = lines(&b.ndjson);
    assert_eq!(la.len(), lb.len());
    for (x, y) in la.iter().zip(lb.iter()) {
        let vx: serde_json::Value = serde_json::from_str(x).unwrap();
        let vy: serde_json::Value = serde_json::from_str(y).unwrap();
        let ox = vx.as_object().unwrap();
        let oy = vy.as_object().unwrap();
        assert_eq!(ox["importedAt"], "T1");
        assert_eq!(oy["importedAt"], "T2");
        for (k, v) in ox {
            if k != "importedAt" {
                assert_eq!(oy.get(k).unwrap(), v);
            }
        }
    }
}
