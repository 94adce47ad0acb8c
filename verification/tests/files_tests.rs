use advisor_core::models::TableSpec;
use advisor_core::store::Store;
use advisor_core::files::{csv_encode, encode_table};
use advisor_core::manager::ChatError;

fn table(headers: Vec<&str>, rows: Vec<Vec<&str>>) -> TableSpec {
    TableSpec {
        headers: headers.into_iter().map(|s| s.to_string()).collect(),
        rows: rows.into_iter().map(|r| r.into_iter().map(|s| s.to_string()).collect()).collect(),
    }
}

#[test]
fn csv_encoding_is_exact() {
    let t = table(vec!["a", "b"], vec![vec!["1", "2"], vec!["3", "4"]]);
    assert_eq!(csv_encode(&t), "a,b\n1,2\n3,4\n");
}

#[test]
fn csv_encoding_flattens_line_feeds_in_cells() {
    let t = table(vec!["h"], vec![vec!["x\ny"]]);
    assert_eq!(csv_encode(&t), "h\nx y\n");
}

#[test]
fn csv_encoding_of_empty_rows() {
    let t = table(vec!["only"], vec![]);
    assert_eq!(csv_encode(&t), "only\n");
}

#[test]
fn encode_table_rejects_unknown_formats() {
    let t = table(vec!["a"], vec![vec!["1"]]);
    assert_eq!(encode_table("pdf", &t).err(), Some(ChatError::ValidationError));
}

#[test]
fn encode_table_folds_format_case() {
    let t = table(vec!["a"], vec![vec!["1"]]);
    let (bytes, mime) = encode_table("CSV", &t).unwrap();
    assert_eq!(bytes, b"a\n1\n".to_vec());
    assert_eq!(mime, "text/csv");
}

#[test]
fn xlsx_encoding_yields_workbook_bytes() {
    let t = table(vec!["a", "b"], vec![vec!["1", "2"]]);
    let (bytes, mime) = encode_table("xlsx", &t).unwrap();
    assert!(!bytes.is_empty());
    // a workbook is a zip archive
    assert_eq!(&bytes[0..2], b"PK");
    assert_eq!(mime, "application/vnd.openxmlformats-officedocument.spreadsheetml.sheet");
}

#[test]
fn stored_file_carries_inline_base64_and_download_path() {
    let mut store = Store::new();
    let att = store.store_file(
        "f-1".to_string(),
        "report.csv".to_string(),
        "text/csv".to_string(),
        b"abc".to_vec(),
        None,
    );
    assert_eq!(att.id.as_deref(), Some("f-1"));
    assert_eq!(att.size, 3);
    // the STANDARD padded base64 of "abc"
    assert_eq!(att.content_base64.as_deref(), Some("YWJj"));
    assert_eq!(att.download_url.as_deref(), Some("/api/files/f-1"));
    assert_eq!(store.files.len(), 1);
    assert_eq!(store.files[0].bytes, b"abc".to_vec());
}

#[test]
fn generated_csv_file_is_stored_with_report_name() {
    let mut store = Store::new();
    let t = table(vec!["A"], vec![vec!["1"]]);
    let att = store.generate_file_and_store("csv", &t, None).unwrap();
    assert!(att.filename.starts_with("report-"));
    assert!(att.filename.ends_with(".csv"));
    assert_eq!(att.mime, "text/csv");
    assert_eq!(store.files.len(), 1);
    assert_eq!(store.files[0].bytes, b"A\n1\n".to_vec());
}

#[test]
fn attachments_are_listed_per_message() {
    let mut store = Store::new();
    let mid = "msg-7".to_string();
    store.store_file(
        "f-1".to_string(),
        "a.csv".to_string(),
        "text/csv".to_string(),
        b"x".to_vec(),
        Some(&mid),
    );
    store.store_file(
        "f-2".to_string(),
        "b.csv".to_string(),
        "text/csv".to_string(),
        b"y".to_vec(),
        None,
    );
    let atts = store.attachments_for_message("msg-7");
    assert_eq!(atts.len(), 1);
    assert_eq!(atts[0].id.as_deref(), Some("f-1"));
    assert_eq!(atts[0].content_base64.as_deref(), Some("eA=="));
    assert!(store.attachments_for_message("other").is_empty());
}
