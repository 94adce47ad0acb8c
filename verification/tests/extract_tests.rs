use advisor_core::extract::{
    extract_title, derive_title, parse_markdown_table, detect_format_from_message,
    extract_file_intent, extract_structured_output,
};

#[test]
fn title_directive_is_stripped_with_blank_line() {
    let (title, body) = extract_title("TITLE: Tax tips\n\nHere's advice.");
    assert_eq!(title.as_deref(), Some("Tax tips"));
    assert_eq!(body, "Here's advice.");
}

#[test]
fn title_directive_keeps_nonblank_second_line() {
    let (title, body) = extract_title("TITLE: Plan\nFirst line\nSecond line");
    assert_eq!(title.as_deref(), Some("Plan"));
    assert_eq!(body, "First line\nSecond line");
}

#[test]
fn empty_title_directive_gives_no_title() {
    let (title, body) = extract_title("TITLE:   \n\nBody here");
    assert_eq!(title, None);
    assert_eq!(body, "Body here");
}

#[test]
fn text_without_marker_is_all_body() {
    let (title, body) = extract_title("Just advice\nmore text");
    assert_eq!(title, None);
    assert_eq!(body, "Just advice\nmore text");
}

#[test]
fn title_is_cut_to_eighty_characters() {
    let long = "x".repeat(200);
    let raw = format!("TITLE: {}\n\nbody", long);
    let (title, _) = extract_title(&raw);
    assert_eq!(title.unwrap().chars().count(), 80);
}

#[test]
fn derived_title_takes_first_nonblank_line() {
    assert_eq!(derive_title("\n   \nAdvice here\nrest").as_deref(), Some("Advice here"));
    assert_eq!(derive_title("   \n\t\n"), None);
    assert_eq!(derive_title(""), None);
}

#[test]
fn markdown_table_is_recovered() {
    let text = "intro\n| A | B |\n|---|---|\n| 1 | 2 |\nafter";
    let t = parse_markdown_table(text).unwrap();
    assert_eq!(t.headers, vec!["A".to_string(), "B".to_string()]);
    assert_eq!(t.rows, vec![vec!["1".to_string(), "2".to_string()]]);
}

#[test]
fn markdown_rows_are_padded_and_truncated() {
    let text = "| A | B |\n|---|---|\n| 1 |\n| 1 | 2 | 3 |";
    let t = parse_markdown_table(text).unwrap();
    assert_eq!(t.rows.len(), 2);
    assert_eq!(t.rows[0], vec!["1".to_string(), "".to_string()]);
    assert_eq!(t.rows[1], vec!["1".to_string(), "2".to_string()]);
}

#[test]
fn markdown_needs_separator_and_data() {
    assert!(parse_markdown_table("| A | B |").is_none());
    assert!(parse_markdown_table("| A | B |\n|---|---|").is_none());
    assert!(parse_markdown_table("no table at all").is_none());
}

#[test]
fn format_detection_scans_keywords() {
    assert_eq!(detect_format_from_message("export as CSV please"), "csv");
    assert_eq!(detect_format_from_message("give me comma-separated data"), "csv");
    assert_eq!(detect_format_from_message("save to report.csv"), "csv");
    assert_eq!(detect_format_from_message("an Excel sheet"), "xlsx");
    assert_eq!(detect_format_from_message("file.xlsx please"), "xlsx");
    assert_eq!(detect_format_from_message("a spreadsheet"), "xlsx");
    assert_eq!(detect_format_from_message("just advice"), "xlsx");
}

#[test]
fn fenced_json_directive_round_trips() {
    let prose = "Here is your report, as requested.\nNumbers follow.\n";
    let block = "```json\n{\"output_format\": \"xlsx\", \"table\": {\"headers\": [\"A\", \"B\"], \"rows\": [[\"1\", \"2\"]]}}\n```";
    let text = format!("{}{}", prose, block);
    let (fmt, table) = extract_file_intent(&text).unwrap();
    assert_eq!(fmt, "xlsx");
    assert_eq!(table.headers, vec!["A".to_string(), "B".to_string()]);
    assert_eq!(table.rows, vec![vec!["1".to_string(), "2".to_string()]]);
}

#[test]
fn bare_fence_and_swapped_keys_also_parse() {
    let text = "prose\n```\n{\"table\": {\"rows\": [[\"x\"]], \"headers\": [\"H\"]}, \"output_format\": \"csv\"}\n```";
    let (fmt, table) = extract_file_intent(text).unwrap();
    assert_eq!(fmt, "csv");
    assert_eq!(table.headers, vec!["H".to_string()]);
    assert_eq!(table.rows, vec![vec!["x".to_string()]]);
}

#[test]
fn brace_span_fallback_parses_trailing_object() {
    let text = "result: {\"output_format\":\"csv\",\"table\":{\"headers\":[\"A\"],\"rows\":[[\"1\"],[\"2\"]]}}";
    let (fmt, table) = extract_file_intent(text).unwrap();
    assert_eq!(fmt, "csv");
    assert_eq!(table.headers, vec!["A".to_string()]);
    assert_eq!(table.rows.len(), 2);
}

#[test]
fn string_escapes_are_decoded() {
    let text = "```json\n{\"output_format\": \"csv\", \"table\": {\"headers\": [\"say \\\"hi\\\"\"], \"rows\": [[\"a\\nb\"]]}}\n```";
    let (_, table) = extract_file_intent(text).unwrap();
    assert_eq!(table.headers, vec!["say \"hi\"".to_string()]);
    assert_eq!(table.rows, vec![vec!["a\nb".to_string()]]);
}

#[test]
fn malformed_directive_is_no_directive() {
    assert!(extract_file_intent("```json\nnot json\n```").is_none());
    assert!(extract_file_intent("{\"output_format\":\"csv\"}").is_none());
    assert!(extract_file_intent("no braces here").is_none());
}

#[test]
fn structured_output_scenario_title_and_table() {
    let raw = "TITLE: Tax tips\n\nHere's advice:\n| A | B |\n|---|---|\n| 1 | 2 |";
    let (title, body, directive) = extract_structured_output(raw, "give me a table");
    assert_eq!(title.as_deref(), Some("Tax tips"));
    assert_eq!(body, "Here's advice:\n| A | B |\n|---|---|\n| 1 | 2 |");
    let (fmt, table) = directive.unwrap();
    assert_eq!(fmt, "xlsx");
    assert_eq!(table.headers, vec!["A".to_string(), "B".to_string()]);
    assert_eq!(table.rows, vec![vec!["1".to_string(), "2".to_string()]]);
}

#[test]
fn table_fallback_extraction_is_idempotent() {
    // no JSON directive anywhere: the table comes from the markdown scan, and
    // re-running the extractor on the already-extracted body recovers the
    // same table
    let raw = "TITLE: Numbers\n\nintro\n| A | B |\n|---|---|\n| 1 | 2 |";
    let (_, body, d1) = extract_structured_output(raw, "csv please");
    let (_, _, d2) = extract_structured_output(&body, "csv please");
    let (f1, t1) = d1.unwrap();
    let (f2, t2) = d2.unwrap();
    assert_eq!(f1, f2);
    assert_eq!(t1.headers, t2.headers);
    assert_eq!(t1.rows, t2.rows);
}

#[test]
fn directive_with_loose_whitespace_and_empty_arrays() {
    let text = "```json\n{ \"output_format\" : \"csv\" , \"table\" : { \"headers\" : [ ] , \"rows\" : [ ] } }\n```";
    let (fmt, table) = extract_file_intent(text).unwrap();
    assert_eq!(fmt, "csv");
    assert!(table.headers.is_empty());
    assert!(table.rows.is_empty());
}

#[test]
fn trailing_text_inside_fence_falls_back_to_brace_span() {
    // the fenced payload has trailing text, so the fence attempts reject it;
    // the first-to-last brace span still recovers the object
    let text = "```json\n{\"output_format\":\"csv\",\"table\":{\"headers\":[\"A\"],\"rows\":[[\"1\"]]}} junk\n```";
    let (fmt, table) = extract_file_intent(text).unwrap();
    assert_eq!(fmt, "csv");
    assert_eq!(table.headers, vec!["A".to_string()]);
}

#[test]
fn duplicate_keys_reject_directive() {
    let dup = "```json\n{\"output_format\":\"csv\",\"output_format\":\"csv\"}\n```";
    assert!(extract_file_intent(dup).is_none());
}

#[test]
fn unknown_members_are_skipped() {
    let text = "```json\n{\"output_format\":\"csv\",\"note\":{\"nested\":[1,-2.5,true,null,\"s\"]},\"table\":{\"headers\":[\"A\"],\"n\":7,\"rows\":[[\"1\"]]}}\n```";
    let (fmt, table) = extract_file_intent(text).unwrap();
    assert_eq!(fmt, "csv");
    assert_eq!(table.headers, vec!["A".to_string()]);
    assert_eq!(table.rows, vec![vec!["1".to_string()]]);
}

#[test]
fn unicode_escapes_are_decoded() {
    let text = "```json\n{\"output_format\":\"csv\",\"table\":{\"headers\":[\"\\u0041\\u00e9\"],\"rows\":[[\"\\u0031\"]]}}\n```";
    let (_, table) = extract_file_intent(text).unwrap();
    assert_eq!(table.headers, vec!["A\u{e9}".to_string()]);
    assert_eq!(table.rows, vec![vec!["1".to_string()]]);
}
