use cpp_build::text::{append_blanks, contains, decimal_text, join, warnln_impl};

fn strings(list: &[&str]) -> Vec<String> {
    list.iter().map(|s| s.to_string()).collect()
}

#[test]
fn numbers_are_written_in_decimal() {
    assert_eq!(decimal_text(0), "0");
    assert_eq!(decimal_text(9), "9");
    assert_eq!(decimal_text(10), "10");
    assert_eq!(decimal_text(1234567890), "1234567890");
    assert_eq!(decimal_text(u64::MAX), u64::MAX.to_string());
}

#[test]
fn different_numbers_differ_in_decimal() {
    assert_ne!(decimal_text(1), decimal_text(10));
    assert_ne!(decimal_text(101), decimal_text(110));
}

#[test]
fn blanks_are_appended() {
    let mut text = "a".to_string();
    append_blanks(&mut text, 0);
    assert_eq!(text, "a");
    append_blanks(&mut text, 3);
    assert_eq!(text, "a   ");
}

#[test]
fn parts_are_joined() {
    assert_eq!(join(&strings(&[]), ", "), "");
    assert_eq!(join(&strings(&["a"]), ", "), "a");
    assert_eq!(join(&strings(&["a", "", "c"]), ", "), "a, , c");
}

#[test]
fn patterns_are_found() {
    assert!(contains("x86_64-pc-windows-msvc", "msvc"));
    assert!(contains("msvc", "msvc"));
    assert!(contains("mmsvc", "msvc"));
    assert!(contains("", ""));
    assert!(contains("a", ""));
    assert!(!contains("x86_64-unknown-linux-gnu", "msvc"));
    assert!(!contains("msv", "msvc"));
    assert!(!contains("", "msvc"));
}

#[test]
fn warnings_show_each_line() {
    assert_eq!(warnln_impl(""), strings(&[]));
    assert_eq!(warnln_impl("one"), strings(&["cargo:warning=one"]));
    assert_eq!(
        warnln_impl("one\ntwo\n"),
        strings(&["cargo:warning=one", "cargo:warning=two"])
    );
    assert_eq!(
        warnln_impl("\n\nthree"),
        strings(&["cargo:warning=", "cargo:warning=", "cargo:warning=three"])
    );
}

#[test]
fn warnings_drop_carriage_returns_at_line_ends_only() {
    assert_eq!(
        warnln_impl("a\r\nb\rc\r\r\nd\r"),
        strings(&[
            "cargo:warning=a",
            "cargo:warning=b\rc\r",
            "cargo:warning=d\r"
        ])
    );
    assert_eq!(warnln_impl("\r\n"), strings(&["cargo:warning="]));
}

#[test]
fn warnings_agree_with_the_lines_of_the_standard_library() {
    for text in ["", "\n", "a", "a\n", "\r\n\r\n", "a\n\nb", "h\u{e9}\nl\u{2028}o\n", "x\r\ny\n\r"] {
        let expected: Vec<String> =
            text.lines().map(|line| format!("cargo:warning={}", line)).collect();
        assert_eq!(warnln_impl(text), expected);
    }
}

#[test]
fn warnings_are_single_lines() {
    for warning in warnln_impl("a\n\nb\r\nc") {
        assert!(warning.starts_with("cargo:warning="));
        assert!(!warning.contains('\n'));
    }
}

#[test]
fn lines_make_up_the_text() {
    for text in ["one", "one\n\ntwo", "\n\n", "a\nb\n"] {
        let lines: Vec<String> = warnln_impl(text)
            .iter()
            .map(|warning| warning["cargo:warning=".len()..].to_string())
            .collect();
        let whole = join(&lines, "\n");
        assert!(text == whole || text == format!("{}\n", whole));
    }
}
