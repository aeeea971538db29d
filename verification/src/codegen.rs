//! The C++ that is generated for a crate: the library with the bodies of its closures,
//! and the program that prints the sizes of their types.

use crate::handle::{Handle, HandleView};
use crate::syntax::{Capture, CaptureView, Closure, ClosureSig, ClosureView, SigView};
use crate::text::{decimal, join, joined, texts};
use vstd::prelude::*;
use vstd::string::*;

verus! {

/// The name of the library that is generated.
pub const LIB_NAME: &'static str = "librust_cpp_generated.a";

/// The name of that library for Visual Studio.
pub const MSVC_LIB_NAME: &'static str = "rust_cpp_generated.lib";

/// The C++ that both the library and the program start with.
pub const INTERNAL_CPP_STRUCTS: &'static str = r#"
namespace rustcpp {

typedef unsigned long long usize;

struct Size {
    const char *name;
    usize *sizes;
    usize sizes_len;
};

template<typename T>
struct AlignOf {
    struct Inner {
        char a;
        T b;
    };
    static const unsigned long long value = sizeof(Inner) - sizeof(T);
};

} // namespace rustcpp
"#;

/// The program that prints the name of each closure and the sizes of its types.
pub const SIZES_SCRIPT_MAIN: &'static str = r#"
#include <stdio.h>
#include <string.h>

extern rustcpp::Size __cpp_sizes[];

int main() {{
    for (rustcpp::usize i = 0; __cpp_sizes[i].name; ++i) {{
        printf("%s", __cpp_sizes[i].name);
        rustcpp::usize *sizes = __cpp_sizes[i].sizes;
        for (rustcpp::usize j = 0; j < __cpp_sizes[i].sizes_len; ++j) {{
            printf(" %llu", sizes[j]);
        }}
        printf(";\n");
    }}
}}
"#;

/// What the name of every generated function starts with.
pub const NAME_PREFIX: &'static str = "__cpp_closure_";

/// The name of the generated function of a closure whose signature hashes to `hash`.
pub open spec fn closure_name(hash: u64) -> Seq<char> {
    NAME_PREFIX@ + decimal(hash as nat)
}

/// Whether a name is that of a generated function.
pub open spec fn is_closure_name(name: Seq<char>) -> bool {
    exists|hash: u64| name == #[trigger] closure_name(hash)
}

/// Whether `cpp_common::ClosureSig::extern_name` may return the name for the signature. It
/// returns one name for one signature throughout a build, but which one depends on the
/// machine and on the release of the standard library, whose hasher it uses.
pub uninterp spec fn may_be_named(sig: SigView, name: Seq<char>) -> bool;

/// `cpp_common::ClosureSig::extern_name`: the name of the generated function of a closure
/// with this signature, the prefix and a hash of the whole signature in decimal. Which hash
/// that is, the standard library leaves open.
#[verifier::external_body]
pub(crate) fn extern_name(sig: &ClosureSig) -> (name: String)
    ensures
        may_be_named(sig@, name@),
        is_closure_name(name@),
{
    let own = |c: &Capture| cpp_common::Capture {
        mutable: c.mutable,
        name: c.name.as_str().into(),
        cpp: c.cpp.clone(),
    };
    let outer = cpp_common::ClosureSig {
        captures: sig.captures.iter().map(own).collect(),
        ret: sig.ret.clone(),
        cpp: sig.cpp.clone(),
        std_body: sig.std_body.clone(),
    };
    outer.extern_name().to_string()
}

/// The size and the alignment of a C++ type.
pub open spec fn size_of(cpp: Seq<char>) -> Seq<char> {
    "sizeof("@ + cpp + "), rustcpp::AlignOf<"@ + cpp + ">::value"@
}

/// The size and the alignment of what a closure returns. `void` has no size in C++, and
/// counts as one of zero bytes.
pub open spec fn return_size(cpp: Seq<char>) -> Seq<char> {
    if cpp == "void"@ {
        "0, 1"@
    } else {
        size_of(cpp)
    }
}

/// The sizes and alignments of the types of a closure: of what it returns, and of each
/// capture in order.
pub open spec fn type_sizes(sig: SigView) -> Seq<Seq<char>> {
    seq![return_size(sig.cpp)] + sig.captures.map_values(|c: CaptureView| size_of(c.cpp))
}

/// The parameter through which a capture is handed over: a reference, which is constant
/// unless the capture is mutable.
pub open spec fn param(capture: CaptureView) -> Seq<char> {
    if capture.mutable {
        capture.cpp + " & "@ + capture.name
    } else {
        "const "@ + capture.cpp + " & "@ + capture.name
    }
}

/// The parameters of the generated function of a closure.
pub open spec fn params(sig: SigView) -> Seq<Seq<char>> {
    sig.captures.map_values(|c: CaptureView| param(c))
}

/// The array that holds the sizes and alignments of the types of a closure.
pub open spec fn sizes_array(name: Seq<char>, sig: SigView) -> Seq<char> {
    "\nrustcpp::usize "@ + name + "_sizes[] = { "@ + joined(type_sizes(sig), ", "@) + " };\n"@
}

/// The generated function of a closure.
pub open spec fn function(name: Seq<char>, closure: ClosureView) -> Seq<char> {
    "\nextern \"C\" {\n"@ + closure.sig.cpp + " "@ + name + "("@ + joined(
        params(closure.sig),
        ", "@,
    ) + ") {\n"@ + closure.body.node + "\n}\n}\n"@
}

/// The entry of a closure in the table of sizes. The name is an identifier, of which
/// nothing is escaped between quotes.
pub open spec fn table_entry(name: Seq<char>) -> Seq<char> {
    "\n{\n    \""@ + name + "\",\n    "@ + name + "_sizes,\n    sizeof("@ + name
        + "_sizes) / sizeof(rustcpp::usize),\n},"@
}

/// What is generated for each of the first `n` closures, in order.
pub open spec fn closures_code(
    closures: Seq<ClosureView>,
    names: Seq<Seq<char>>,
    n: nat,
) -> Seq<char>
    decreases n,
{
    if n == 0 {
        Seq::empty()
    } else {
        let i = n - 1;
        closures_code(closures, names, i as nat) + (sizes_array(names[i], closures[i].sig)
            + function(names[i], closures[i]))
    }
}

/// The entries of the first `n` closures in the table of sizes, in order.
pub open spec fn table_entries(names: Seq<Seq<char>>, n: nat) -> Seq<char>
    decreases n,
{
    if n == 0 {
        Seq::empty()
    } else {
        table_entries(names, (n - 1) as nat) + table_entry(names[n - 1])
    }
}

/// The library for what was collected from a crate, with a name for each closure: the
/// snippets, the generated functions, and the table of sizes, which an entry without a
/// name ends.
pub open spec fn cpp_lib(collected: HandleView, names: Seq<Seq<char>>) -> Seq<char> {
    INTERNAL_CPP_STRUCTS@ + collected.snippets + "\n\n"@ + closures_code(
        collected.closures,
        names,
        collected.closures.len(),
    ) + "\nrustcpp::Size __cpp_sizes[] = { "@ + table_entries(names, collected.closures.len())
        + " { 0 } };\n"@
}

/// Whether a text is a library for what was collected from a crate: each closure bears the
/// name that is made from its signature.
pub open spec fn generated(collected: HandleView, text: Seq<char>) -> bool {
    exists|names: Seq<Seq<char>>|
        {
            &&& named(collected, names)
            &&& text == #[trigger] cpp_lib(collected, names)
        }
}

/// Whether the names are those of the generated functions of the closures, in order.
pub open spec fn named(collected: HandleView, names: Seq<Seq<char>>) -> bool {
    &&& names.len() == collected.closures.len()
    &&& forall|i: int|
        0 <= i < names.len() ==> is_closure_name(#[trigger] names[i]) && may_be_named(
            collected.closures[i].sig,
            names[i],
        )
}

fn append_size_of(text: &mut String, cpp: &str)
    ensures
        final(text)@ == old(text)@ + size_of(cpp@),
{
    text.append("sizeof(");
    text.append(cpp);
    text.append("), rustcpp::AlignOf<");
    text.append(cpp);
    text.append(">::value");
    proof {
        assert(text@ == old(text)@ + size_of(cpp@));
    }
}

/// The sizes and alignments of the types of a closure.
pub fn gen_type_sizes(sig: &ClosureSig) -> (sizes: Vec<String>)
    ensures
        texts(sizes@) == type_sizes(sig@),
{
    let mut sizes: Vec<String> = Vec::new();
    let mut first = String::new();
    if sig.cpp == "void".to_owned() {
        first.append("0, 1");
    } else {
        append_size_of(&mut first, sig.cpp.as_str());
    }
    sizes.push(first);
    proof {
        assert(texts(sizes@) == type_sizes(sig@).take(1));
    }
    for i in 0..sig.captures.len()
        invariant
            texts(sizes@) == type_sizes(sig@).take(i + 1),
    {
        let mut size = String::new();
        append_size_of(&mut size, sig.captures[i].cpp.as_str());
        let ghost before = texts(sizes@);
        sizes.push(size);
        proof {
            assert(texts(sizes@) == before.push(size@));
            assert(size@ == type_sizes(sig@)[i + 1]);
        }
    }
    proof {
        assert(type_sizes(sig@).take(sig.captures.len() + 1) == type_sizes(sig@));
    }
    sizes
}

/// The parameters of the generated function of a closure.
pub fn gen_params(sig: &ClosureSig) -> (list: Vec<String>)
    ensures
        texts(list@) == params(sig@),
{
    let mut list: Vec<String> = Vec::new();
    for i in 0..sig.captures.len()
        invariant
            texts(list@) == params(sig@).take(i as int),
    {
        let capture = &sig.captures[i];
        let mut text = if capture.mutable {
            capture.cpp.clone()
        } else {
            let mut text = "const ".to_owned();
            text.append(capture.cpp.as_str());
            text
        };
        text.append(" & ");
        text.append(capture.name.as_str());
        let ghost before = texts(list@);
        list.push(text);
        proof {
            assert(texts(list@) == before.push(text@));
            assert(text@ == params(sig@)[i as int]);
        }
    }
    proof {
        assert(params(sig@).take(sig.captures.len() as int) == params(sig@));
    }
    list
}

/// The array of sizes and the generated function of a closure.
pub fn gen_closure(name: &str, closure: &Closure) -> (text: String)
    ensures
        text@ == sizes_array(name@, closure.sig@) + function(name@, closure@),
{
    let mut text = "\nrustcpp::usize ".to_owned();
    text.append(name);
    text.append("_sizes[] = { ");
    let sizes = join(&gen_type_sizes(&closure.sig), ", ");
    text.append(sizes.as_str());
    text.append(" };\n");
    let mut code = "\nextern \"C\" {\n".to_owned();
    code.append(closure.sig.cpp.as_str());
    code.append(" ");
    code.append(name);
    code.append("(");
    let list = join(&gen_params(&closure.sig), ", ");
    code.append(list.as_str());
    code.append(") {\n");
    code.append(closure.body.node.as_str());
    code.append("\n}\n}\n");
    text.append(code.as_str());
    text
}

/// The entry of a closure in the table of sizes.
pub fn gen_table_entry(name: &str) -> (text: String)
    ensures
        text@ == table_entry(name@),
{
    let mut text = "\n{\n    \"".to_owned();
    text.append(name);
    text.append("\",\n    ");
    text.append(name);
    text.append("_sizes,\n    sizeof(");
    text.append(name);
    text.append("_sizes) / sizeof(rustcpp::usize),\n},");
    text
}

/// The library for what was collected from a crate, with a name for each closure.
pub fn gen_cpp_lib_named(visitor: &Handle, names: &Vec<String>) -> (text: String)
    requires
        names.len() == visitor.closures.len(),
    ensures
        text@ == cpp_lib(visitor@, texts(names@)),
{
    let mut text = INTERNAL_CPP_STRUCTS.to_owned();
    text.append(visitor.snippets.as_str());
    text.append("\n\n");
    let mut code = String::new();
    let mut closures = String::new();
    for i in 0..visitor.closures.len()
        invariant
            names.len() == visitor.closures.len(),
            code@ == closures_code(visitor@.closures, texts(names@), i as nat),
            closures@ == table_entries(texts(names@), i as nat),
    {
        let closure = gen_closure(names[i].as_str(), &visitor.closures[i]);
        code.append(closure.as_str());
        let entry = gen_table_entry(names[i].as_str());
        closures.append(entry.as_str());
    }
    text.append(code.as_str());
    text.append("\nrustcpp::Size __cpp_sizes[] = { ");
    text.append(closures.as_str());
    text.append(" { 0 } };\n");
    text
}

/// The library for what was collected from a crate.
pub fn gen_cpp_lib(visitor: &Handle) -> (text: String)
    ensures
        generated(visitor@, text@),
{
    let mut names: Vec<String> = Vec::new();
    for i in 0..visitor.closures.len()
        invariant
            names.len() == i,
            forall|j: int|
                0 <= j < i ==> is_closure_name(#[trigger] texts(names@)[j]) && may_be_named(
                    visitor@.closures[j].sig,
                    texts(names@)[j],
                ),
    {
        let ghost before = texts(names@);
        names.push(extern_name(&visitor.closures[i].sig));
        proof {
            assert forall|j: int| 0 <= j < i + 1 implies is_closure_name(
                #[trigger] texts(names@)[j],
            ) && may_be_named(visitor@.closures[j].sig, texts(names@)[j]) by {
                assert(j < i ==> texts(names@)[j] == before[j]);
            }
        }
    }
    gen_cpp_lib_named(visitor, &names)
}

/// The program that prints the sizes.
pub fn gen_sizes_cpp() -> (text: String)
    ensures
        text@ == INTERNAL_CPP_STRUCTS@ + SIZES_SCRIPT_MAIN@,
{
    let mut text = INTERNAL_CPP_STRUCTS.to_owned();
    text.append(SIZES_SCRIPT_MAIN);
    text
}

}
