/* The sources of the crate that these tests visit are this file, from its first line on:
SNIPPET {{ int   one; }}
    CLOSURE ([mut a as "int"] -> i32 as "int" { return
        a; })
LITERAL {"int two;"}
EMPTY {{   }}
OTHER (x)
BYTE {{ b'é' }}
COMMENT {{ // 'b'é
int three; // 'b'，
 }}
STRING {{ s = "b'é"; }}
WORD {{_b'é'}}
*/
use cpp_build::handle::{extract_with_span, locate, Handle};
use cpp_build::parsing::MacroError;
use cpp_build::sources::{LocInfo, Span};
use cpp_build::syntax::{Mac, Macro, Spanned};
use cpp_synmap::SourceMap;

fn sources() -> SourceMap {
    let mut sm = SourceMap::new();
    sm.add_crate_root("tests/visiting.rs").unwrap();
    sm
}

fn head(sm: &SourceMap) -> String {
    sm.source_text(cpp_syn::Span { lo: 0, hi: 450 }).unwrap().to_string()
}

/// The span of the first `text` in the sources.
fn span_of(sm: &SourceMap, text: &str) -> Span {
    let lo = head(sm).find(text).unwrap();
    Span { lo: lo, hi: lo + text.len() }
}

fn invocation(path: &[&str], tts: Vec<Span>) -> Mac {
    Mac { path: path.iter().map(|s| s.to_string()).collect(), tts: tts }
}

fn cpp(sm: &SourceMap, text: &str) -> Mac {
    invocation(&["cpp"], vec![span_of(sm, text)])
}

/// The line that names this file and a line of it.
fn directive(line: usize) -> String {
    let here = std::path::Path::new("tests/visiting.rs").canonicalize().unwrap();
    format!("#line {} {:?}\n", line, here)
}

#[test]
fn code_is_put_at_its_place() {
    let loc = LocInfo { path: "\"/a b.rs\"".to_string(), line: 12, col: 3 };
    assert_eq!(locate(&loc, "x;\n  y;"), "#line 12 \"/a b.rs\"\n   x;\n  y;");
    let loc = LocInfo { path: "\"p\"".to_string(), line: 1, col: 0 };
    assert_eq!(locate(&loc, ""), "#line 1 \"p\"\n");
}

#[test]
fn a_snippet_is_collected_with_its_place() {
    let sm = sources();
    let mut handle = Handle::new(&sm);
    handle.visit_mac(&cpp(&sm, "{{ int   one; }}")).unwrap();
    let place = format!("{}{}", directive(2), " ".repeat(11));
    assert_eq!(handle.snippets, format!("\n{}int   one;", place));
    assert!(handle.closures.is_empty());
}

#[test]
fn a_closure_is_collected_with_its_place() {
    let sm = sources();
    let mut handle = Handle::new(&sm);
    let text = "([mut a as \"int\"] -> i32 as \"int\" { return\n        a; })";
    handle.visit_mac(&cpp(&sm, text)).unwrap();
    assert_eq!(handle.snippets, "");
    assert_eq!(handle.closures.len(), 1);
    let closure = &handle.closures[0];
    assert_eq!(closure.sig.captures.len(), 1);
    assert_eq!(closure.sig.captures[0].name, "a");
    assert_eq!(closure.sig.cpp, "int");
    let body = "return\n        a;";
    let place = format!("{}{}", directive(3), " ".repeat(48));
    assert_eq!(closure.body.node, format!("{}{}", place, body));
    assert_eq!(closure.body.span, span_of(&sm, body));
}

#[test]
fn every_file_has_its_own_spans() {
    let mut sm = sources();
    let mut len = 0;
    while sm.filename(cpp_syn::Span { lo: 0, hi: len }).is_ok() {
        len += 1;
    }
    sm.add_crate_root("tests/visiting.rs").unwrap();
    let first = span_of(&sm, "{{ int   one; }}");
    let second = Span { lo: first.lo + len, hi: first.hi + len };
    let mut handle = Handle::new(&sm);
    handle.visit_mac(&invocation(&["cpp"], vec![first])).unwrap();
    let once = handle.snippets.clone();
    handle.visit_mac(&invocation(&["cpp"], vec![second])).unwrap();
    assert_eq!(handle.snippets, once.repeat(2));
    let across = Span { lo: first.lo, hi: second.hi };
    let done = handle.visit_mac(&invocation(&["cpp"], vec![across]));
    assert!(matches!(done, Err(MacroError::NoSource(_))));
}

#[test]
fn a_literal_is_collected_as_it_is() {
    let sm = sources();
    let mut handle = Handle::new(&sm);
    handle.visit_mac(&cpp(&sm, "{\"int two;\"}")).unwrap();
    assert_eq!(handle.snippets, "\nint two;");
}

#[test]
fn what_was_collected_stays_in_front() {
    let sm = sources();
    let mut handle = Handle::new(&sm);
    handle.visit_mac(&cpp(&sm, "{{ int   one; }}")).unwrap();
    let first = handle.snippets.clone();
    handle.visit_mac(&cpp(&sm, "{\"int two;\"}")).unwrap();
    assert_eq!(handle.snippets, format!("{}\nint two;", first));
}

#[test]
fn other_macros_are_passed_over() {
    let sm = sources();
    let mut handle = Handle::new(&sm);
    let span = span_of(&sm, "(x)");
    handle.visit_mac(&invocation(&["println"], vec![span])).unwrap();
    handle.visit_mac(&invocation(&["cpp", "cpp"], vec![span])).unwrap();
    handle.visit_mac(&invocation(&[], vec![])).unwrap();
    handle.visit_mac(&invocation(&["other"], vec![])).unwrap();
    assert_eq!(handle.snippets, "");
    assert!(handle.closures.is_empty());
}

#[test]
fn the_tokens_of_an_invocation_are_taken_together() {
    let sm = sources();
    let mut handle = Handle::new(&sm);
    let all = span_of(&sm, "{\"int two;\"}");
    let tts = vec![Span { lo: all.lo, hi: all.lo + 1 }, Span { lo: all.hi - 1, hi: all.hi }];
    handle.visit_mac(&invocation(&["cpp"], tts)).unwrap();
    assert_eq!(handle.snippets, "\nint two;");
}

#[test]
fn an_invocation_without_tokens_is_refused() {
    let sm = sources();
    let mut handle = Handle::new(&sm);
    let done = handle.visit_mac(&invocation(&["cpp"], vec![]));
    assert!(matches!(done, Err(MacroError::NoTokens)));
}

#[test]
fn an_invocation_outside_of_the_sources_is_refused() {
    let sm = SourceMap::new();
    let mut handle = Handle::new(&sm);
    let done = handle.visit_mac(&invocation(&["cpp"], vec![Span { lo: 0, hi: 1 }]));
    assert!(matches!(done, Err(MacroError::NoSource(_))));
    let sm = sources();
    let mut handle = Handle::new(&sm);
    let done = handle.visit_mac(&invocation(&["cpp"], vec![Span { lo: 2, hi: 1 }]));
    assert!(matches!(done, Err(MacroError::NoSource(_))));
}

#[test]
fn an_invocation_that_is_not_parsed_is_refused() {
    let sm = sources();
    let mut handle = Handle::new(&sm);
    let done = handle.visit_mac(&cpp(&sm, "(x)"));
    assert!(matches!(done, Err(MacroError::NotParsed)));
}

#[test]
fn text_behind_an_invocation_is_refused() {
    let sm = sources();
    let mut handle = Handle::new(&sm);
    match handle.visit_mac(&cpp(&sm, "{\"int two;\"}\nEMPTY")) {
        Err(MacroError::Trailing(rest)) => assert_eq!(rest, "EMPTY"),
        other => panic!("{:?}", other),
    }
}

#[test]
fn words_may_end_in_front_of_a_quote() {
    let sm = sources();
    let mut handle = Handle::new(&sm);
    let mac = cpp(&sm, "{{_b'\u{e9}'}}");
    handle.try_visit_mac(&mac).unwrap().unwrap();
    let place = format!("{}{}", directive(13), " ".repeat(7));
    assert_eq!(handle.snippets, format!("\n{}_b'\u{e9}'", place));
}

#[test]
fn a_body_of_blanks_is_refused() {
    let sm = sources();
    let mut handle = Handle::new(&sm);
    let done = handle.visit_mac(&cpp(&sm, "{{   }}"));
    assert!(matches!(done, Err(MacroError::BadBody)));
    assert_eq!(handle.snippets, "");
}

#[test]
fn a_byte_literal_beyond_ascii_stands_in_the_way() {
    let sm = sources();
    let mut handle = Handle::new(&sm);
    assert!(handle.try_visit_mac(&cpp(&sm, "{{ b'\u{e9}' }}")).is_none());
    assert_eq!(handle.snippets, "");
    let other = invocation(&["other"], vec![span_of(&sm, "{{ b'\u{e9}' }}")]);
    assert!(handle.try_visit_mac(&other).unwrap().is_ok());
    assert_eq!(handle.snippets, "");
    assert!(handle.try_visit_mac(&cpp(&sm, "{\"int two;\"}")).unwrap().is_ok());
    assert_eq!(handle.snippets, "\nint two;");
    let done = handle.try_visit_mac(&cpp(&sm, "(x)")).unwrap();
    assert!(matches!(done, Err(MacroError::NotParsed)));
}

#[test]
fn comments_are_collected_whatever_they_hold() {
    let sm = sources();
    let mut handle = Handle::new(&sm);
    let mac = cpp(&sm, "{{ // 'b'\u{e9}\nint three; // 'b'\u{ff0c}\n }}");
    handle.visit_mac(&mac).unwrap();
    let once = handle.snippets.clone();
    assert_eq!(once, format!("\n{}int three;", directive(10)));
    handle.try_visit_mac(&mac).unwrap().unwrap();
    assert_eq!(handle.snippets, once.repeat(2));
}

#[test]
fn strings_are_collected_whatever_they_hold() {
    let sm = sources();
    let mut handle = Handle::new(&sm);
    let mac = cpp(&sm, "{{ s = \"b'\u{e9}\"; }}");
    handle.visit_mac(&mac).unwrap();
    let once = handle.snippets.clone();
    let place = format!("{}{}", directive(12), " ".repeat(10));
    assert_eq!(once, format!("\n{}s = \"b'\u{e9}\";", place));
    handle.try_visit_mac(&mac).unwrap().unwrap();
    assert_eq!(handle.snippets, once.repeat(2));
}

#[test]
fn a_body_that_splits_a_character_is_refused() {
    let sm = sources();
    let mut code = Spanned { node: "n".to_string(), span: Span { lo: 1, hi: 3 } };
    let done = extract_with_span(&mut code, "\u{e9}\u{e9}", 0, &sm);
    assert!(matches!(done, Err(MacroError::BadBody)));
    assert_eq!(code.node, "n");
    code.span = Span { lo: 0, hi: 5 };
    let done = extract_with_span(&mut code, "\u{e9}\u{e9}", 0, &sm);
    assert!(matches!(done, Err(MacroError::BadBody)));
}

#[test]
fn a_body_outside_of_the_sources_is_refused() {
    let sm = SourceMap::new();
    let mut code = Spanned { node: "n".to_string(), span: Span { lo: 1, hi: 2 } };
    let done = extract_with_span(&mut code, "abc", 5, &sm);
    assert!(matches!(done, Err(MacroError::NoLocation(_))));
    assert_eq!(code.node, "n");
    assert_eq!(code.span, Span { lo: 1, hi: 2 });
}

#[test]
fn code_without_a_span_is_kept() {
    let sm = SourceMap::new();
    let mut far = Spanned { node: "n".to_string(), span: Span::dummy() };
    extract_with_span(&mut far, "abc", usize::MAX, &sm).unwrap();
    assert_eq!(far.node, "n");
    assert_eq!(far.span, Span::dummy());
    let mut code = Spanned { node: "n".to_string(), span: Span::dummy() };
    extract_with_span(&mut code, "abc", 5, &sm).unwrap();
    assert_eq!(code.node, "n");
    assert_eq!(code.span, Span::dummy());
}

#[test]
fn code_is_moved_to_its_offset() {
    let sm = sources();
    let mut code = Spanned { node: "n".to_string(), span: Span { lo: 2, hi: 4 } };
    extract_with_span(&mut code, "h\u{e9}llo", 0, &sm).unwrap_err();
    extract_with_span(&mut code, "hello", 3, &sm).unwrap();
    assert_eq!(code.span, Span { lo: 5, hi: 7 });
    assert_eq!(code.node, format!("{}{}ll", directive(1), " ".repeat(5)));
}

#[test]
fn a_parsed_invocation_is_recorded() {
    let sm = sources();
    let mut handle = Handle::new(&sm);
    let code = Spanned { node: "int x;".to_string(), span: Span::dummy() };
    handle.record(Macro::Lit(code), "", 0).unwrap();
    assert_eq!(handle.snippets, "\nint x;");
    let code = Spanned { node: "int y;".to_string(), span: Span { lo: 3, hi: 2 } };
    assert!(matches!(handle.record(Macro::Lit(code), "abc", 0), Err(MacroError::BadBody)));
    assert_eq!(handle.snippets, "\nint x;");
}
