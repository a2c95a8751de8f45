use mewcode::wc::wc;

fn assert_counts(input: &str, expected: (usize, usize, usize, usize)) {
    assert_eq!(wc(input), expected, "mismatch for input: {input:?}");
}

#[test]
fn empty_string() {
    assert_counts("", (0, 0, 0, 0));
}

#[test]
fn single_word() {
    assert_counts("hello", (1, 1, 5, 5));
}

#[test]
fn simple_sentence() {
    assert_counts("hello world", (2, 1, 11, 11));
}

#[test]
fn multiline() {
    assert_counts("line1\nline2\nline3", (3, 3, 17, 17));
}

#[test]
fn whitespace_only() {
    assert_counts("   \n  \n   ", (0, 3, 10, 10));
}

#[test]
fn empty_lines() {
    assert_counts("\n\n\n", (0, 3, 3, 3));
}

#[test]
fn unicode() {
    assert_counts("héllo wörld", (2, 1, 11, 13));
}

#[test]
fn mixed_content() {
    let input = "Hello, world!\nThis is a test.\n\nThird line.";
    assert_counts(input, (8, 4, 42, 42));
}

#[test]
fn wc_trailing_newline() {
    assert_counts("text\n", (1, 1, 5, 5));
}

#[test]
fn multiple_trailing_newlines() {
    assert_counts("text\n\n", (1, 2, 6, 6));
}

#[test]
fn whitespace_between_line_breaks() {
    assert_counts("  \n  \n  ", (0, 3, 8, 8));
}

#[test]
fn migration_wc_agrees_with_wc() {
    for input in ["", "a b\nc", "x\r\ny\n", "  tabs\tand\u{3000}ideographic  "] {
        assert_eq!(mewcode::migration::wc::wc(input), wc(input));
    }
    assert_eq!(wc("a\r\nb"), (2, 2, 4, 4));
}
