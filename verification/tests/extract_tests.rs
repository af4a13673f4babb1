use hvm_bench::extract::parse_stdout;

#[test]
fn finds_marker_line_among_others() {
    let out = parse_stdout("ITRS: 12\n- TIME: 1.23s\nSIZE: 4\n");
    assert_eq!(out, Some("1.23s".to_string()));
}

#[test]
fn finds_marker_line_first() {
    let out = parse_stdout("- TIME: 1.23s\nITRS: 12\n");
    assert_eq!(out, Some("1.23s".to_string()));
}

#[test]
fn finds_marker_line_last_without_newline() {
    let out = parse_stdout("ITRS: 12\n- TIME: 1.23s");
    assert_eq!(out, Some("1.23s".to_string()));
}

#[test]
fn surrounding_lines_do_not_change_token() {
    let a = parse_stdout("x\ny\n- TIME: 0.5s\n");
    let b = parse_stdout("- TIME: 0.5s\nx\ny\n");
    assert_eq!(a, Some("0.5s".to_string()));
    assert_eq!(a, b);
}

#[test]
fn first_matching_line_wins() {
    let out = parse_stdout("- TIME: 1s\n- TIME: 2s\n");
    assert_eq!(out, Some("1s".to_string()));
}

#[test]
fn fails_without_marker_even_on_nonempty_text() {
    assert_eq!(parse_stdout("plenty of output\nbut no timing\n"), None);
}

#[test]
fn fails_on_empty_text() {
    assert_eq!(parse_stdout(""), None);
}

#[test]
fn marker_must_lead_the_line() {
    assert_eq!(parse_stdout("x- TIME: 1.23s\n"), None);
}

#[test]
fn prefix_of_marker_does_not_match() {
    assert_eq!(parse_stdout("- TIME:\n"), None);
}

#[test]
fn empty_token_when_line_is_exactly_the_marker() {
    assert_eq!(parse_stdout("- TIME: \n"), Some(String::new()));
}

#[test]
fn carriage_return_is_stripped_before_matching() {
    let out = parse_stdout("ITRS: 12\r\n- TIME: 1.23s\r\n");
    assert_eq!(out, Some("1.23s".to_string()));
}

#[test]
fn deterministic_on_same_input() {
    let text = "a\n- TIME: 9.99s\nb\n";
    assert_eq!(parse_stdout(text), parse_stdout(text));
}
