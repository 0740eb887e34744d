use rust_transform::files::{is_csv_name, sort_by_size_desc, FileEntry};
use rust_transform::report::{
    aggregate, build_complete_event, build_error_line, build_file_done_event, build_start_event,
    missing_part_number_message, rate_per_sec, sat_add, FileStat,
};
use rust_transform::timefmt::{epoch_days_to_ymd, iso8601_of_unix_millis};

fn stat(records: u64, nb: u64, bb: u64, failed: bool) -> FileStat {
    FileStat {
        file_name: b"f.csv".to_vec(),
        records,
        ndjson_bytes: nb,
        bulk_bytes: bb,
        duration_ms: 1,
        failed,
    }
}

#[test]
fn aggregate_sums_and_counts_errors() {
    let t = aggregate(&vec![stat(2, 10, 20, false), stat(3, 1, 2, true), stat(0, 0, 0, false)]);
    assert_eq!(t.records, 5);
    assert_eq!(t.ndjson_bytes, 11);
    assert_eq!(t.bulk_bytes, 22);
    assert_eq!(t.errors, 1);
}

#[test]
fn aggregate_saturates() {
    let t = aggregate(&vec![stat(u64::MAX, 0, 0, false), stat(2, 0, 0, false)]);
    assert_eq!(t.records, u64::MAX);
    assert_eq!(sat_add(u64::MAX - 1, 1), u64::MAX);
    assert_eq!(sat_add(1, 2), 3);
}

#[test]
fn rates() {
    assert_eq!(rate_per_sec(1000, 2000), 500);
    assert_eq!(rate_per_sec(1000, 999), 1000);
    assert_eq!(rate_per_sec(0, 5000), 0);
    assert_eq!(rate_per_sec(7, 0), 7);
}

#[test]
fn start_event_line() {
    let line = build_start_event(2, 100, 4, b"/in", b"/out");
    assert_eq!(
        String::from_utf8(line).unwrap(),
        "{\"event\":\"start\",\"files\":2,\"total_bytes\":100,\"threads\":4,\"input_dir\":\"/in\",\"output_dir\":\"/out\"}"
    );
}

#[test]
fn file_done_event_line() {
    let line = build_file_done_event(b"a.csv", 100, 2000, 3000, 2500, 1, 3);
    let s = String::from_utf8(line).unwrap();
    assert_eq!(
        s,
        "{\"event\":\"file_done\",\"file\":\"a.csv\",\"records\":100,\"ndjson_bytes\":2000,\"bulk_bytes\":3000,\"duration_ms\":2500,\"rate_per_sec\":50,\"progress\":\"1/3\"}"
    );
    let v: serde_json::Value = serde_json::from_str(&s).unwrap();
    assert_eq!(v["rate_per_sec"], 50);
    assert_eq!(v["progress"], "1/3");
}

#[test]
fn complete_event_line() {
    let line = build_complete_event(5, 11, 22, 33, 2000, 2, 3, 1, 4, b"parts");
    let s = String::from_utf8(line).unwrap();
    let v: serde_json::Value = serde_json::from_str(&s).unwrap();
    assert_eq!(v["event"], "complete");
    assert_eq!(v["total_records"], 5);
    assert_eq!(v["total_ndjson_bytes"], 11);
    assert_eq!(v["total_bulk_bytes"], 22);
    assert_eq!(v["total_input_bytes"], 33);
    assert_eq!(v["duration_ms"], 2000);
    assert_eq!(v["rate_per_sec"], 2);
    assert_eq!(v["files_processed"], 2);
    assert_eq!(v["files_total"], 3);
    assert_eq!(v["errors"], 1);
    assert_eq!(v["threads"], 4);
    assert_eq!(v["es_index"], "parts");
}

#[test]
fn error_line_and_message() {
    let msg = missing_part_number_message();
    let line = build_error_line(b"a.csv", &msg);
    assert_eq!(
        String::from_utf8(line).unwrap(),
        "ERROR: a.csv: no part number column detected"
    );
}

#[test]
fn csv_name_detection() {
    assert!(is_csv_name(b"a.csv"));
    assert!(is_csv_name(b"A.CSV"));
    assert!(is_csv_name(b"dir.stuff.Csv"));
    assert!(!is_csv_name(b"a.txt"));
    assert!(!is_csv_name(b"nodot"));
    assert!(!is_csv_name(b"a.csv.bak"));
}

#[test]
fn sort_descending_by_size() {
    let files = vec![
        FileEntry { name: b"small".to_vec(), size: 1 },
        FileEntry { name: b"big".to_vec(), size: 100 },
        FileEntry { name: b"mid".to_vec(), size: 50 },
    ];
    let sorted = sort_by_size_desc(files);
    let sizes: Vec<u64> = sorted.iter().map(|f| f.size).collect();
    assert_eq!(sizes, vec![100, 50, 1]);
    assert_eq!(sorted[0].name, b"big".to_vec());
}

#[test]
fn timestamp_formatting() {
    assert_eq!(
        String::from_utf8(iso8601_of_unix_millis(0)).unwrap(),
        "1970-01-01T00:00:00.000Z"
    );
    assert_eq!(
        String::from_utf8(iso8601_of_unix_millis(1_700_000_000_000)).unwrap(),
        "2023-11-14T22:13:20.000Z"
    );
    assert_eq!(
        String::from_utf8(iso8601_of_unix_millis(951_827_696_789)).unwrap(),
        "2000-02-29T12:34:56.789Z"
    );
}

#[test]
fn civil_dates() {
    assert_eq!(epoch_days_to_ymd(0), (1970, 1, 1));
    assert_eq!(epoch_days_to_ymd(19358), (2023, 1, 1));
    assert_eq!(epoch_days_to_ymd(11016), (2000, 2, 29));
    assert_eq!(epoch_days_to_ymd(11017), (2000, 3, 1));
}
