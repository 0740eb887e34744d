use rust_transform::csvrows::parse_csv;
use rust_transform::pipeline::detect_delimiter;

fn rows_of(content: &str, d: u8) -> Vec<Vec<String>> {
    parse_csv(content.as_bytes(), d)
        .into_iter()
        .map(|row| row.into_iter().map(|c| String::from_utf8(c).unwrap()).collect())
        .collect()
}

#[test]
fn plain_rows() {
    let r = rows_of("a,b\nc,d\n", b',');
    assert_eq!(r, vec![vec!["a".to_string(), "b".to_string()], vec![
        "c".to_string(),
        "d".to_string(),
    ]]);
}

#[test]
fn cells_are_trimmed() {
    let r = rows_of(" a , b \n", b',');
    assert_eq!(r, vec![vec!["a".to_string(), "b".to_string()]]);
}

#[test]
fn quoted_cell_keeps_delimiter_and_newline() {
    let r = rows_of("\"a,b\",c\n", b',');
    assert_eq!(r, vec![vec!["a,b".to_string(), "c".to_string()]]);
    let r = rows_of("\"two\nlines\",x\n", b',');
    assert_eq!(r, vec![vec!["two\nlines".to_string(), "x".to_string()]]);
}

#[test]
fn doubled_quote_is_escaped_quote() {
    let r = rows_of("\"he said \"\"hi\"\"\"\n", b',');
    assert_eq!(r, vec![vec!["he said \"hi\"".to_string()]]);
}

#[test]
fn semicolon_delimiter() {
    let r = rows_of("a;b\nc;d\n", b';');
    assert_eq!(r, vec![vec!["a".to_string(), "b".to_string()], vec![
        "c".to_string(),
        "d".to_string(),
    ]]);
}

#[test]
fn blank_lines_yield_no_rows() {
    let r = rows_of("a\n\n\nb\n", b',');
    assert_eq!(r, vec![vec!["a".to_string()], vec!["b".to_string()]]);
}

#[test]
fn crlf_line_endings() {
    let r = rows_of("a,b\r\nc,d\r\n", b',');
    assert_eq!(r, vec![vec!["a".to_string(), "b".to_string()], vec![
        "c".to_string(),
        "d".to_string(),
    ]]);
}

#[test]
fn last_row_without_newline() {
    let r = rows_of("a,b\nc,d", b',');
    assert_eq!(r.len(), 2);
    assert_eq!(r[1], vec!["c".to_string(), "d".to_string()]);
}

#[test]
fn ragged_rows_are_kept() {
    let r = rows_of("a,b,c\nd\n", b',');
    assert_eq!(r[0].len(), 3);
    assert_eq!(r[1].len(), 1);
}

#[test]
fn empty_input_has_no_rows() {
    let r = rows_of("", b',');
    assert!(r.is_empty());
}

#[test]
fn delimiter_detection_prefers_semicolons() {
    assert_eq!(detect_delimiter(b"a;b;c\n1;2;3\n"), b';');
    assert_eq!(detect_delimiter(b"a,b,c\n"), b',');
    // Tie goes to comma.
    assert_eq!(detect_delimiter(b"a;b,c\n"), b',');
    // Only the first line counts.
    assert_eq!(detect_delimiter(b"a,b\nx;y;z;w\n"), b',');
    // Empty input defaults to comma.
    assert_eq!(detect_delimiter(b""), b',');
}
