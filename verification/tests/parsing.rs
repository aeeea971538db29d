use cpp_build::parsing::{expect_whole, parse_macro, MacroError};
use cpp_build::sources::Span;
use cpp_build::syntax::{Closure, Macro, Spanned};

fn closure(text: &str) -> Closure {
    match parse_macro(text) {
        Ok(Macro::Closure(closure)) => closure,
        other => panic!("{:?}", other),
    }
}

fn snippet(text: &str) -> Spanned {
    match parse_macro(text) {
        Ok(Macro::Lit(code)) => code,
        other => panic!("{:?}", other),
    }
}

#[test]
fn a_closure_is_taken_apart() {
    let text = r#"([mut a as "int", b as "std::string"] -> u32 as "unsigned" { return a ++ ; })"#;
    let closure = closure(text);
    assert_eq!(closure.sig.captures.len(), 2);
    assert!(closure.sig.captures[0].mutable);
    assert_eq!(closure.sig.captures[0].name, "a");
    assert_eq!(closure.sig.captures[0].cpp, "int");
    assert!(!closure.sig.captures[1].mutable);
    assert_eq!(closure.sig.captures[1].name, "b");
    assert_eq!(closure.sig.captures[1].cpp, "std::string");
    assert_eq!(closure.sig.cpp, "unsigned");
    assert_eq!(closure.sig.ret, cpp_syn::parse_type("u32").unwrap());
    assert_eq!(closure.sig.std_body, closure.body.node);
    let Span { lo, hi } = closure.body.span;
    assert_eq!(&text[lo..hi], "return a ++ ;");
}

#[test]
fn a_closure_returns_void_by_default() {
    let closure = closure(r#"{[] "return;"}"#);
    assert_eq!(closure.sig.captures.len(), 0);
    assert_eq!(closure.sig.cpp, "void");
    assert_eq!(closure.sig.ret, cpp_syn::Ty::Tup(vec![]));
    assert_eq!(closure.body.node, "return;");
    assert_eq!(closure.body.span, Span::dummy());
}

#[test]
fn a_snippet_is_code_alone() {
    let text = "({ int  x; })";
    let code = snippet(text);
    assert_eq!(&text[code.span.lo..code.span.hi], "int  x;");
    let code = snippet("[ r#\"int x;\"# ]");
    assert_eq!(code.node, "int x;");
    assert_eq!(code.span, Span::dummy());
}

#[test]
fn white_space_may_follow() {
    snippet("{{ int x; }}  \n // end\n");
}

#[test]
fn other_texts_are_not_parsed() {
    assert!(matches!(parse_macro(""), Err(MacroError::NotParsed)));
    assert!(matches!(parse_macro("()"), Err(MacroError::NotParsed)));
    assert!(matches!(parse_macro("([a] {})"), Err(MacroError::NotParsed)));
}

#[test]
fn text_behind_the_macro_is_refused() {
    match parse_macro("{{ int x; }} + y") {
        Err(MacroError::Trailing(rest)) => assert_eq!(rest, "+ y"),
        other => panic!("{:?}", other),
    }
}

#[test]
fn only_a_whole_macro_is_accepted() {
    let code = || Macro::Lit(Spanned { node: "x".to_string(), span: Span::dummy() });
    assert!(matches!(expect_whole(Some(code()), ""), Ok(Macro::Lit(_))));
    assert!(matches!(expect_whole(None, ""), Err(MacroError::NotParsed)));
    assert!(matches!(expect_whole(None, "x"), Err(MacroError::NotParsed)));
    match expect_whole(Some(code()), "rest") {
        Err(MacroError::Trailing(rest)) => assert_eq!(rest, "rest"),
        other => panic!("{:?}", other),
    }
}

#[test]
fn white_space_that_does_not_end_is_left() {
    match parse_macro("{{ int x; }} // a\n\u{3000}/* b") {
        Err(MacroError::Trailing(rest)) => assert_eq!(rest, " // a\n\u{3000}/* b"),
        other => panic!("{:?}", other),
    }
    match parse_macro("{{ int x; }} // a\n\u{3000}/* b */ /// c\n") {
        Err(MacroError::Trailing(rest)) => assert_eq!(rest, "/// c\n"),
        other => panic!("{:?}", other),
    }
}
