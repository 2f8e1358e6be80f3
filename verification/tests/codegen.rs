use route_rs_runtime::codegen::indent;

#[test]
fn empty_string() {
    let input = String::from("");
    let output = indent("    ", input);

    assert_eq!(output, "");
}

#[test]
fn oneline_string() {
    let input = String::from("foo asdf bar");
    let output = indent("    ", input);

    assert_eq!(output, "    foo asdf bar");
}

#[test]
fn multiline_string() {
    let input = String::from("foo\nasdf\nbar");
    let output = indent("    ", input);

    assert_eq!(output, "    foo\n    asdf\n    bar");
}

#[test]
fn multiline_string_with_blankline() {
    let input = String::from("foo\n\nasdf\nbar");
    let output = indent("    ", input);

    assert_eq!(output, "    foo\n\n    asdf\n    bar");
}

#[test]
fn trailing_line_feed_stays_last() {
    let output = indent("  ", String::from("foo\nbar\n"));

    assert_eq!(output, "  foo\n  bar\n");
}

#[test]
fn line_feeds_alone_are_left_alone() {
    let output = indent("\t", String::from("\n\n\n"));

    assert_eq!(output, "\n\n\n");
}

#[test]
fn leading_blank_line_is_not_indented() {
    let output = indent("> ", String::from("\nfoo"));

    assert_eq!(output, "\n> foo");
}

#[test]
fn empty_indentation_changes_nothing() {
    let output = indent("", String::from("foo\n\nbar"));

    assert_eq!(output, "foo\n\nbar");
}

#[test]
fn line_of_blanks_is_indented() {
    let output = indent("--", String::from("a\n \nb"));

    assert_eq!(output, "--a\n-- \n--b");
}

#[test]
fn carriage_return_belongs_to_its_line() {
    let output = indent("  ", String::from("a\r\n\r\nb"));

    assert_eq!(output, "  a\r\n  \r\n  b");
}

#[test]
fn characters_outside_ascii_are_kept() {
    let output = indent("→ ", String::from("héllo\nwörld ✓\n\n日本語"));

    assert_eq!(output, "→ héllo\n→ wörld ✓\n\n→ 日本語");
}

#[test]
fn indenting_twice_stacks_the_indentation() {
    let once = indent("  ", String::from("fn f() {\n    body\n}"));
    let twice = indent("  ", once);

    assert_eq!(twice, "    fn f() {\n        body\n    }");
}
