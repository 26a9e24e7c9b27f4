use linegrep::matcher::Pattern;
use linegrep::paint::{decorate, Style};
use linegrep::report::source_block;
use linegrep::scanner::{number_token, process_lines, scan, LineRecord};

fn coloured() {
    colored::control::set_override(true);
}

#[test]
fn line_number_is_green() {
    coloured();
    assert_eq!(decorate("1", Style::LineNumber), "\x1b[32m1\x1b[0m");
    assert_eq!(number_token(250), "\x1b[32m250\x1b[0m");
}

#[test]
fn match_is_bold_red() {
    coloured();
    assert_eq!(decorate("Hello", Style::Match), "\x1b[1;31mHello\x1b[0m");
}

#[test]
fn failure_is_red() {
    coloured();
    assert_eq!(decorate("bad bytes", Style::Failure), "\x1b[31mbad bytes\x1b[0m");
}

#[test]
fn source_name_is_blue() {
    coloured();
    assert_eq!(decorate("a.txt", Style::SourceName), "\x1b[34ma.txt\x1b[0m");
}

#[test]
fn hello_test_is_shown_with_hello_emphasised() {
    coloured();
    let pattern = Pattern::compile("Hello", false).unwrap();
    let lines = vec![LineRecord::Text("Hello test".to_string())];

    assert_eq!(
        process_lines(&lines, &pattern),
        Some(vec!["\x1b[32m1\x1b[0m: \x1b[1;31mHello\x1b[0m test".to_string()])
    );
}

#[test]
fn every_match_in_a_line_is_emphasised() {
    coloured();
    let pattern = Pattern::compile("[0-9]+", false).unwrap();

    assert_eq!(
        pattern.highlight("a1b22c"),
        "a\x1b[1;31m1\x1b[0mb\x1b[1;31m22\x1b[0mc"
    );
    assert_eq!(pattern.highlight("no digits"), "no digits");
}

#[test]
fn case_insensitive_match_keeps_the_line_as_written() {
    coloured();
    let pattern = Pattern::compile("hello", true).unwrap();

    assert_eq!(pattern.highlight("oh HeLLo"), "oh \x1b[1;31mHeLLo\x1b[0m");
}

#[test]
fn undecodable_line_is_shown_with_its_message_in_red() {
    coloured();
    let pattern = Pattern::compile("x", false).unwrap();
    let lines = vec![LineRecord::Unreadable("bad bytes".to_string())];

    assert_eq!(
        process_lines(&lines, &pattern),
        Some(vec!["\x1b[32m1\x1b[0m: Failed to parse line: \x1b[31mbad bytes\x1b[0m".to_string()])
    );
}

#[test]
fn block_starts_with_the_name_in_blue() {
    coloured();
    let pattern = Pattern::compile("b", false).unwrap();
    let lines = vec![LineRecord::Text("a".to_string()), LineRecord::Text("b".to_string())];

    let block = source_block("in.txt", &scan(&lines, &pattern));

    assert_eq!(
        block,
        vec!["\x1b[34min.txt\x1b[0m", "\x1b[32m2\x1b[0m: \x1b[1;31mb\x1b[0m", ""]
    );
}
