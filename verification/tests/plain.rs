use linegrep::decimal::decimal_string;
use linegrep::matcher::Pattern;
use linegrep::paint::{decorate, Style};
use linegrep::report::source_block;
use linegrep::scanner::{
    failure_display, hit_display, number_token, process_lines, report_line, scan, LineRecord,
    ScanOutcome,
};

fn plain() {
    colored::control::set_override(false);
}

#[test]
fn decimal_string_writes_each_digit() {
    assert_eq!(decimal_string(0), "0");
    assert_eq!(decimal_string(7), "7");
    assert_eq!(decimal_string(10), "10");
    assert_eq!(decimal_string(109), "109");
    assert_eq!(decimal_string(1234567890), "1234567890");
    assert_eq!(decimal_string(usize::MAX), usize::MAX.to_string());
}

#[test]
fn hit_display_joins_token_and_line() {
    assert_eq!(hit_display("1", "Hello test"), "1: Hello test");
    assert_eq!(hit_display("", ""), ": ");
}

#[test]
fn failure_display_joins_token_and_notice() {
    assert_eq!(
        failure_display("3", "stream did not contain valid UTF-8"),
        "3: Failed to parse line: stream did not contain valid UTF-8"
    );
}

#[test]
fn plain_decoration_keeps_the_text() {
    plain();
    assert_eq!(decorate("17", Style::LineNumber), "17");
    assert_eq!(decorate("word", Style::Match), "word");
    assert_eq!(decorate("oops", Style::Failure), "oops");
    assert_eq!(decorate("a.txt", Style::SourceName), "a.txt");
    assert_eq!(number_token(42), "42");
}

#[test]
fn plain_hit_is_number_colon_line() {
    plain();
    let pattern = Pattern::compile("Hello", false).unwrap();
    let lines = vec![LineRecord::Text("Hello test".to_string())];

    assert_eq!(process_lines(&lines, &pattern), Some(vec!["1: Hello test".to_string()]));
}

#[test]
fn plain_failure_is_number_colon_notice() {
    plain();
    let pattern = Pattern::compile("x", false).unwrap();
    let lines = vec![
        LineRecord::Text("y".to_string()),
        LineRecord::Unreadable("stream did not contain valid UTF-8".to_string()),
    ];

    assert_eq!(
        process_lines(&lines, &pattern),
        Some(vec!["2: Failed to parse line: stream did not contain valid UTF-8".to_string()])
    );
}

#[test]
fn plain_highlight_is_the_line() {
    plain();
    let pattern = Pattern::compile("[0-9]+", false).unwrap();

    assert_eq!(pattern.highlight("a1b22c333"), "a1b22c333");
}

#[test]
fn report_line_skips_a_line_without_match() {
    plain();
    let pattern = Pattern::compile("x", false).unwrap();

    assert!(report_line(&pattern, 5, &LineRecord::Text("abc".to_string())).is_none());
    let hit = report_line(&pattern, 5, &LineRecord::Text("axc".to_string())).unwrap();
    assert_eq!(hit.line_number, 5);
    assert_eq!(hit.display, "5: axc");
    let failure = report_line(&pattern, 6, &LineRecord::Unreadable("bad".to_string())).unwrap();
    assert_eq!(failure.line_number, 6);
    assert_eq!(failure.display, "6: Failed to parse line: bad");
}

#[test]
fn plain_block_is_name_lines_and_blank() {
    plain();
    let pattern = Pattern::compile("a", false).unwrap();
    let lines = vec![
        LineRecord::Text("a".to_string()),
        LineRecord::Text("b".to_string()),
        LineRecord::Text("ca".to_string()),
    ];

    let block = source_block("notes.txt", &scan(&lines, &pattern));

    assert_eq!(block, vec!["notes.txt", "1: a", "3: ca", ""]);
}

#[test]
fn from_results_turns_an_empty_list_into_no_hits() {
    assert!(matches!(ScanOutcome::from_results(Vec::new()), ScanOutcome::NoHits));
    let empty_hits = ScanOutcome::Hits(Vec::new());
    assert!(!empty_hits.is_hits());
    assert!(source_block("odd", &empty_hits).is_empty());
}
