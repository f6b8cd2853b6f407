use lyre::progress::{filter_progress, parse_percent, text_bar, ProgressFilter};

#[test]
fn diagnostic_transcript_forwards_two_distinct_values_then_full() {
    let lines: Vec<String> = vec![
        "[download]  0.0%".to_string(),
        "[download]  0.0%".to_string(),
        "[download] 42.3%".to_string(),
        "[download] 100%".to_string(),
    ];
    let events = filter_progress(&lines);
    assert_eq!(events, vec![0u8, 42, 100]);
}

#[test]
fn repeated_values_are_never_forwarded_twice() {
    let mut filter = ProgressFilter::new();
    assert_eq!(filter.observe("[download]  7.0%").map(|e| e.percent), Some(7));
    assert_eq!(filter.observe("[download]  7.4%").map(|e| e.percent), None);
    assert_eq!(filter.observe("[download]  8.0%").map(|e| e.percent), Some(8));
    assert_eq!(filter.observe("no progress here").map(|e| e.percent), None);
    assert_eq!(filter.observe("[download]  8.0%").map(|e| e.percent), None);
}

#[test]
fn percent_parsing_rounds_and_clamps() {
    assert_eq!(parse_percent("[download] 42.3%"), Some(42));
    assert_eq!(parse_percent("[download] 42.5%"), Some(43));
    assert_eq!(parse_percent("[download] 99.9%"), Some(100));
    assert_eq!(parse_percent("[download] 100%"), Some(100));
    assert_eq!(parse_percent("[download] 250%"), Some(100));
    assert_eq!(parse_percent("x.5%"), Some(1));
    assert_eq!(parse_percent("x5.%"), Some(5));
}

#[test]
fn percent_parsing_accepts_a_number_at_the_start_of_the_line() {
    // The numeric run may begin the line: nothing needs to precede it.
    assert_eq!(parse_percent("42%"), Some(42));
    assert_eq!(parse_percent("42.3%"), Some(42));
    assert_eq!(parse_percent("250.0%"), Some(100));
    assert_eq!(parse_percent("0.0%"), Some(0));
}

#[test]
fn percent_parsing_rejects_malformed_lines() {
    // No percent sign at all.
    assert_eq!(parse_percent("[download] destination file"), None);
    // Nothing numeric before the sign.
    assert_eq!(parse_percent("ratio %"), None);
    assert_eq!(parse_percent("%"), None);
    // Two decimal points cannot parse as one number.
    assert_eq!(parse_percent("v 1.2.3%"), None);
    // Only a dot is not a number.
    assert_eq!(parse_percent("x.%"), None);
    assert_eq!(parse_percent(""), None);
}

#[test]
fn first_percent_sign_decides() {
    // Parsing uses the first '%' on the line, even if a later one follows.
    assert_eq!(parse_percent("[download]  3.0% of 10MB at 1%"), Some(3));
}

#[test]
fn progress_bar_renders_twenty_cells() {
    assert_eq!(text_bar(0), "[                    ]");
    assert_eq!(text_bar(100), "[████████████████████]");
    assert_eq!(text_bar(50), "[██████████          ]");
    // 42% fills 8 of 20 cells (integer arithmetic).
    assert_eq!(text_bar(42), "[████████            ]");
}
