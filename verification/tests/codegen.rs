use cpp_build::codegen::{
    gen_closure, gen_cpp_lib, gen_cpp_lib_named, gen_params, gen_sizes_cpp, gen_table_entry,
    gen_type_sizes, INTERNAL_CPP_STRUCTS, LIB_NAME, MSVC_LIB_NAME, SIZES_SCRIPT_MAIN,
};
use cpp_build::handle::Handle;
use cpp_build::sources::Span;
use cpp_build::syntax::{Capture, Closure, ClosureSig, Spanned};
use cpp_synmap::SourceMap;

fn capture(mutable: bool, name: &str, cpp: &str) -> Capture {
    Capture { mutable: mutable, name: name.to_string(), cpp: cpp.to_string() }
}

fn closure(captures: Vec<Capture>, cpp: &str, body: &str) -> Closure {
    Closure {
        sig: ClosureSig {
            captures: captures,
            ret: cpp_syn::Ty::Tup(vec![]),
            cpp: cpp.to_string(),
            std_body: body.to_string(),
        },
        body: Spanned { node: body.to_string(), span: Span::dummy() },
    }
}

fn two() -> Closure {
    closure(
        vec![capture(true, "a", "int"), capture(false, "b", "Foo")],
        "double",
        "return a;",
    )
}

#[test]
fn every_type_has_a_size() {
    assert_eq!(
        gen_type_sizes(&two().sig),
        [
            "sizeof(double), rustcpp::AlignOf<double>::value",
            "sizeof(int), rustcpp::AlignOf<int>::value",
            "sizeof(Foo), rustcpp::AlignOf<Foo>::value",
        ]
    );
}

#[test]
fn void_has_no_size() {
    assert_eq!(gen_type_sizes(&closure(vec![], "void", "").sig), ["0, 1"]);
    assert_eq!(
        gen_type_sizes(&closure(vec![capture(false, "v", "void")], "void ", "").sig),
        [
            "sizeof(void ), rustcpp::AlignOf<void >::value",
            "sizeof(void), rustcpp::AlignOf<void>::value",
        ]
    );
}

#[test]
fn captures_are_references() {
    assert_eq!(gen_params(&two().sig), ["int & a", "const Foo & b"]);
    assert!(gen_params(&closure(vec![], "void", "").sig).is_empty());
}

#[test]
fn a_closure_becomes_a_function() {
    assert_eq!(
        gen_closure("__cpp_closure_7", &two()),
        r#"
rustcpp::usize __cpp_closure_7_sizes[] = { sizeof(double), rustcpp::AlignOf<double>::value, sizeof(int), rustcpp::AlignOf<int>::value, sizeof(Foo), rustcpp::AlignOf<Foo>::value };

extern "C" {
double __cpp_closure_7(int & a, const Foo & b) {
return a;
}
}
"#
    );
}

#[test]
fn a_table_entry_quotes_the_name() {
    let name = "__cpp_closure_7";
    assert_eq!(
        gen_table_entry(name),
        format!(
            r#"
{{
    {0:?},
    {0}_sizes,
    sizeof({0}_sizes) / sizeof(rustcpp::usize),
}},"#,
            name
        )
    );
}

#[test]
fn a_library_holds_snippets_functions_and_the_table() {
    let sm = SourceMap::new();
    let mut handle = Handle::new(&sm);
    handle.snippets = "\nint x;".to_string();
    handle.closures.push(closure(vec![], "void", "x = 1;"));
    handle.closures.push(closure(vec![], "int", "return x;"));
    let names = vec!["__cpp_closure_1".to_string(), "__cpp_closure_2".to_string()];
    let expected = r#"
int x;


rustcpp::usize __cpp_closure_1_sizes[] = { 0, 1 };

extern "C" {
void __cpp_closure_1() {
x = 1;
}
}

rustcpp::usize __cpp_closure_2_sizes[] = { sizeof(int), rustcpp::AlignOf<int>::value };

extern "C" {
int __cpp_closure_2() {
return x;
}
}

rustcpp::Size __cpp_sizes[] = { 
{
    "__cpp_closure_1",
    __cpp_closure_1_sizes,
    sizeof(__cpp_closure_1_sizes) / sizeof(rustcpp::usize),
},
{
    "__cpp_closure_2",
    __cpp_closure_2_sizes,
    sizeof(__cpp_closure_2_sizes) / sizeof(rustcpp::usize),
}, { 0 } };
"#;
    assert_eq!(
        gen_cpp_lib_named(&handle, &names),
        format!("{}{}", INTERNAL_CPP_STRUCTS, expected)
    );
}

#[test]
fn an_empty_library_has_an_empty_table() {
    let sm = SourceMap::new();
    assert_eq!(
        gen_cpp_lib(&Handle::new(&sm)),
        format!("{}\n\n\nrustcpp::Size __cpp_sizes[] = {{  {{ 0 }} }};\n", INTERNAL_CPP_STRUCTS)
    );
}

#[test]
fn functions_bear_the_names_of_their_signatures() {
    let sm = SourceMap::new();
    let mut handle = Handle::new(&sm);
    handle.closures.push(two());
    handle.closures.push(closure(vec![], "void", ";"));
    let names: Vec<String> = vec![
        cpp_common::ClosureSig {
            captures: vec![
                cpp_common::Capture { mutable: true, name: "a".into(), cpp: "int".to_string() },
                cpp_common::Capture { mutable: false, name: "b".into(), cpp: "Foo".to_string() },
            ],
            ret: cpp_syn::Ty::Tup(vec![]),
            cpp: "double".to_string(),
            std_body: "return a;".to_string(),
        },
        cpp_common::ClosureSig {
            captures: vec![],
            ret: cpp_syn::Ty::Tup(vec![]),
            cpp: "void".to_string(),
            std_body: ";".to_string(),
        },
    ]
    .iter()
    .map(|sig| sig.extern_name().to_string())
    .collect();
    assert!(names[0].starts_with("__cpp_closure_"));
    assert_ne!(names[0], names[1]);
    for name in &names {
        assert!(name.chars().all(|c| c == '_' || c.is_ascii_lowercase() || c.is_ascii_digit()));
    }
    assert_eq!(gen_cpp_lib(&handle), gen_cpp_lib_named(&handle, &names));
}

#[test]
fn the_program_prints_the_table() {
    let text = gen_sizes_cpp();
    assert_eq!(text, format!("{}{}", INTERNAL_CPP_STRUCTS, SIZES_SCRIPT_MAIN));
    assert!(text.starts_with("\nnamespace rustcpp {\n\ntypedef unsigned long long usize;\n"));
    assert!(text.contains("\n} // namespace rustcpp\n\n#include <stdio.h>\n"));
    assert!(text.contains("\nextern rustcpp::Size __cpp_sizes[];\n\nint main() {{\n"));
    assert!(text.ends_with("        printf(\";\\n\");\n    }}\n}}\n"));
}

#[test]
fn the_libraries_have_fixed_names() {
    assert_eq!(LIB_NAME, "librust_cpp_generated.a");
    assert_eq!(MSVC_LIB_NAME, "rust_cpp_generated.lib");
}
