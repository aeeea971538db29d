use cpp_build::lexing::has_plain_byte_literals;
use cpp_build::parsing::parse_macro;

fn plain(code: &str) -> bool {
    has_plain_byte_literals(&format!("{{{{ {} }}}}", code))
}

/// Every sequence of up to `len` of the pieces.
fn sequences(pieces: &[&str], len: usize) -> Vec<String> {
    let mut all = vec![String::new()];
    let mut last = all.clone();
    for _ in 0..len {
        let mut longer = Vec::new();
        for text in &last {
            for piece in pieces {
                longer.push(format!("{}{}", text, piece));
            }
        }
        all.extend(longer.iter().cloned());
        last = longer;
    }
    all
}

#[test]
fn byte_literals_beyond_ascii_are_found() {
    assert!(!plain("b'é'"));
    assert!(!plain("x = b'é'"));
    assert!(!plain("b'a' b'\u{80}'"));
    assert!(!plain("'x'b'é'"));
    assert!(!plain("1u8b'é'"));
    assert!(!plain("1.5e-3f32b'é'"));
    assert!(!plain("1._5b'é'"));
    assert!(!plain("1e+_5b'é'"));
    assert!(!plain("\"\"b'é'"));
    assert!(!plain("/* */b'é'"));
    assert!(!plain("// \nb'é'"));
    assert!(!plain("r\"\\\" b'é' \""));
    assert!(!plain("\u{3000}b'é'"));
}

#[test]
fn other_texts_hold_no_such_literal() {
    assert!(plain(""));
    assert!(plain("b'"));
    assert!(plain("b'a' '\u{e9}' b\u{e9}"));
    assert!(plain("b'\\n' b'\\'' b'\\x80'"));
    assert!(plain("xb'é"));
    assert!(plain("_b'é'"));
    assert!(plain("\u{fc}b'é'"));
    assert!(plain("x\u{fc}b'é'"));
    assert!(plain("'\u{fc}b 'é'"));
    assert!(plain("0x1b'é'"));
    assert!(plain("1._5 \"b'é'\""));
    assert!(plain("1u8r#\"b'é'\"#"));
    assert!(plain("x/* \"b'é\""));
    assert!(plain("'b'é"));
    assert!(has_plain_byte_literals(""));
    assert!(has_plain_byte_literals("b'é"));
}

#[test]
fn comments_are_passed_over() {
    assert!(plain("// 'b'é\nint x;"));
    assert!(plain("// 'b'，\nint x;"));
    assert!(plain("// b'é\n// b'é\n\u{3000}/* b'é /* b'é */ b'é */ int x;"));
    assert!(plain("/// b'é\nint x;"));
    assert!(plain("//! b'é\nint x;"));
    assert!(plain("/** b'é */ int x; /*! b'é */ /**/ /***/"));
    assert!(plain("\" /* \" // b'é\n"));
}

#[test]
fn comments_that_do_not_end_are_not_passed_over() {
    assert!(!plain("x/* b'é"));
    assert!(!plain("x// b'é\n/*"));
    assert!(!plain("x//! b'é"));
    assert!(!plain("x/** b'é"));
}

#[test]
fn strings_are_passed_over() {
    assert!(plain("s = \"b'é\";"));
    assert!(plain("s = \"\\\"b'é\";"));
    assert!(plain("s = r\"\\\" + \"b'é\";"));
    assert!(plain("s = r#\"\" b'é\"#;"));
    assert!(plain("s = br\"b'é\"; t = b\"\\x80 \" + \"b'é\";"));
    assert!(plain("c = '\"'; s = \"b'é\";"));
    assert!(plain("c = '\\''; s = \"b'é\";"));
}

#[test]
fn headers_are_passed_over() {
    let text = "([mut a as \"b'é\"] -> &'static u8 as \"int\" { /* b'é */ a; })";
    assert!(has_plain_byte_literals(text));
    parse_macro(text).unwrap();
    let text = "([] -> [u8; 4] as \"A\" { /* b'é */ a; })";
    assert!(has_plain_byte_literals(text));
    parse_macro(text).unwrap();
    let text = "([] -> [u8; N * (4 + 4)] as \"A\" { /* b'é */ a; })";
    assert!(has_plain_byte_literals(text));
    parse_macro(text).unwrap();
    let text = "([] -> [m!{;}; P.0.1 + 'a' as usize] as \"A\" { /* b'é */ a; })";
    assert!(has_plain_byte_literals(text));
    parse_macro(text).unwrap();
    let text = "([] -> ! as \"void\" { /* b'é */ a; })";
    assert!(has_plain_byte_literals(text));
    parse_macro(text).unwrap();
    assert!(!has_plain_byte_literals("([] -> [u8; b'é'] as \"int\" { a; })"));
    assert!(!has_plain_byte_literals("([] -> [u8; x /*! b'é' */] as \"int\" { a; })"));
    assert!(!has_plain_byte_literals("([] -> m!{ b'é' } as \"int\" { a; })"));
}

#[test]
fn plain_texts_can_be_read() {
    let pieces = [
        "b'é", "é", "'", "\"", "\\", "/", "*", "\n", " ", "r", "#", "1", "_", ".", "!", "x",
    ];
    for code in sequences(&pieces, 4) {
        let text = format!("{{{{{}}}}}", code);
        if has_plain_byte_literals(&text) {
            let _ = parse_macro(&text);
        }
    }
}
