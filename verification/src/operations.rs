//! What the operations of the library do, of their arguments and their results.
//!
//! Each law speaks of a call by `call_ensures`: of whatever the operation may return for the
//! arguments.

use crate::artifacts::Artifact;
use crate::codegen::{
    closure_name, closures_code, cpp_lib, function, gen_closure, gen_cpp_lib, gen_cpp_lib_named,
    gen_params, gen_sizes_cpp, gen_table_entry, gen_type_sizes, generated, may_be_named, named,
    sizes_array, table_entries, table_entry, INTERNAL_CPP_STRUCTS,
};
use crate::config::{Config, ConfigView, Input};
use crate::handle::{
    cut, cuttable, extract_with_span, locate, located, names_cpp, recorded, whole_span, Handle, Visit,
};
use crate::laws::law_only_odd_bytes_stand_in_the_way;
use crate::lexing::{
    find, has_plain_byte_literals, is_letter, lemma_plain_rest, odd_byte, plain_byte_literals,
    plain_from, plain_rest, space_end, string_end, without_leading_space, Part,
};
use crate::parsing::{
    built_macro, expect_whole, parse_macro, parsed_macro, Failure, MacroError,
};
use crate::sources::{
    column_after, file_index, file_of, lemma_file_index, line_after, source_files, text_of, LocInfo,
    SourceFile, Span,
};
use crate::steps::{
    args_view, gen_ran, gen_sizes_exe, msvc_path, sizes_args, Action, Arg, Event, Step,
};
use crate::syntax::{Closure, ClosureSig, ClosureView, Mac, Macro, MacroView, Spanned};
use crate::text::{
    after_first_line, append_blanks, blanks, contains, decimal, decimal_text, digit, first_line, join, joined,
    lemma_line_end, line_end, lines, lossy, occurs, texts, warnln_impl,
};
use cpp_synmap::SourceMap;
use std::path::PathBuf;
use vstd::prelude::*;
use vstd::string::*;
use vstd::utf8::*;

verus! {

// Text.

/// The number that decimal digits stand for, read from the left.
pub open spec fn value(digits: Seq<char>) -> nat
    decreases digits.len(),
{
    if digits.len() == 0 {
        0
    } else {
        value(digits.drop_last()) * 10 + (digits.last() as int - '0' as int) as nat
    }
}

/// Whether a text is a number in decimal: digits, and no zero in front of others.
pub open spec fn is_number(text: Seq<char>) -> bool {
    &&& text.len() > 0
    &&& forall|i: int| 0 <= i < text.len() ==> '0' <= #[trigger] text[i] <= '9'
    &&& text.len() > 1 ==> text[0] != '0'
}

proof fn lemma_decimal_reads_back(n: nat)
    ensures
        is_number(decimal(n)),
        value(decimal(n)) == n,
        n > 0 ==> decimal(n)[0] != '0',
    decreases n,
{
    reveal_with_fuel(value, 2);
    if n < 10 {
        assert(decimal(n).drop_last() == Seq::<char>::empty());
    } else {
        lemma_decimal_reads_back(n / 10);
        assert(decimal(n).drop_last() == decimal(n / 10));
        assert(decimal(n).last() == digit(n % 10));
    }
}

/// A number is written in decimal: read back, the text is the number.
pub proof fn law_numbers_read_back(n: u64, text: String)
    requires
        call_ensures(decimal_text, (n,), text),
    ensures
        is_number(text@),
        value(text@) == n,
{
    lemma_decimal_reads_back(n as nat);
}

/// As many blanks as asked for are appended, and nothing else changes.
pub proof fn law_blanks_are_appended(text: &mut String, n: usize)
    requires
        call_ensures(append_blanks, (text, n), ()),
    ensures
        final(text)@.len() == old(text)@.len() + n,
        old(text)@.is_prefix_of(final(text)@),
        forall|i: int|
            old(text)@.len() <= i < final(text)@.len() ==> #[trigger] final(text)@[i] == ' ',
{
}

proof fn lemma_joined_parts(front: Seq<Seq<char>>, back: Seq<Seq<char>>, sep: Seq<char>)
    requires
        front.len() > 0,
        back.len() > 0,
    ensures
        joined(front + back, sep) == joined(front, sep) + sep + joined(back, sep),
    decreases back.len(),
{
    let all = front + back;
    assert(all.last() == back.last());
    assert(all.drop_last() == front + back.drop_last());
    if back.len() > 1 {
        lemma_joined_parts(front, back.drop_last(), sep);
        assert(joined(all, sep) == joined(front, sep) + sep + joined(back, sep));
    } else {
        assert(all.drop_last() == front);
        assert(joined(all, sep) == joined(front, sep) + sep + joined(back, sep));
    }
}

/// No parts joined are nothing, and one part is that part.
pub proof fn law_few_parts_are_joined(parts: Vec<String>, sep: &str, text: String)
    requires
        call_ensures(join, (&parts, sep), text),
    ensures
        parts.len() == 0 ==> text@.len() == 0,
        parts.len() == 1 ==> text@ == parts[0]@,
{
    assert(texts(parts@).len() == parts.len());
    if parts.len() == 1 {
        assert(texts(parts@)[0] == parts[0]@);
    }
}

/// Two lists joined, with the separator between them, are the list of both joined.
pub proof fn law_joining_goes_on(
    front: Vec<String>,
    back: Vec<String>,
    all: Vec<String>,
    sep: &str,
    front_text: String,
    back_text: String,
    text: String,
)
    requires
        front.len() > 0,
        back.len() > 0,
        all@ == front@ + back@,
        call_ensures(join, (&front, sep), front_text),
        call_ensures(join, (&back, sep), back_text),
        call_ensures(join, (&all, sep), text),
    ensures
        text@ == front_text@ + sep@ + back_text@,
{
    assert(texts(all@) == texts(front@) + texts(back@));
    lemma_joined_parts(texts(front@), texts(back@), sep@);
}

/// Whether a text is another with something before and something behind it.
pub open spec fn stands_in(part: Seq<char>, text: Seq<char>) -> bool {
    exists|before: Seq<char>, behind: Seq<char>| text == #[trigger] (before + part + behind)
}

proof fn lemma_occurs(pattern: Seq<char>, text: Seq<char>)
    ensures
        occurs(pattern, text) == stands_in(pattern, text),
{
    if occurs(pattern, text) {
        let i = choose|i: int|
            0 <= i && i + pattern.len() <= text.len() && #[trigger] text.subrange(
                i,
                i + pattern.len(),
            ) == pattern;
        assert(text == text.take(i) + pattern + text.skip(i + pattern.len()));
    }
    if stands_in(pattern, text) {
        let (before, behind) = choose|before: Seq<char>, behind: Seq<char>|
            text == #[trigger] (before + pattern + behind);
        let i = before.len() as int;
        assert(text.subrange(i, i + pattern.len()) == pattern);
    }
}

/// A pattern is found where, and only where, the text is the pattern with something before and
/// something behind it.
pub proof fn law_patterns_are_found(text: &str, pattern: &str, found: bool)
    requires
        call_ensures(contains, (text, pattern), found),
    ensures
        found == stands_in(pattern@, text@),
{
    lemma_occurs(pattern@, text@);
}

/// A line without the carriage return that may end it.
pub open spec fn without_return(line: Seq<char>) -> Seq<char> {
    if line.len() > 0 && line.last() == '\r' {
        line.drop_last()
    } else {
        line
    }
}

proof fn lemma_first_line(line: Seq<char>, rest: Seq<char>)
    requires
        !line.contains('\n'),
    ensures
        lines(line + seq!['\n'] + rest) == seq![without_return(line)] + lines(rest),
{
    let text = line + seq!['\n'] + rest;
    lemma_line_end(text, 0);
    let end = line_end(text, 0);
    assert(text[line.len() as int] == '\n');
    assert(end == line.len()) by {
        if end < line.len() {
            assert(line[end] == '\n');
        }
    }
    assert(text.take(end) == line);
    assert(first_line(text) == without_return(line));
    assert(after_first_line(text) == rest);
}

/// Nothing is shown of an empty text.
pub proof fn law_no_text_has_no_warnings(a: &str, out: Vec<String>)
    requires
        a@.len() == 0,
        call_ensures(warnln_impl, (a,), out),
    ensures
        out.len() == 0,
{
    assert(texts(out@).len() == out.len());
}

/// A text of one line, with no line feed behind it, is one warning.
pub proof fn law_a_line_is_a_warning(a: &str, out: Vec<String>)
    requires
        a@.len() > 0,
        !a@.contains('\n'),
        call_ensures(warnln_impl, (a,), out),
    ensures
        out.len() == 1,
        out[0]@ == "cargo:warning="@ + a@,
{
    lemma_line_end(a@, 0);
    assert(line_end(a@, 0) == a@.len()) by {
        if line_end(a@, 0) < a@.len() {
            assert(a@.contains('\n'));
        }
    }
    assert(a@.take(a@.len() as int) == a@);
    assert(after_first_line(a@) == Seq::<char>::empty());
    assert(lines(after_first_line(a@)) == Seq::<Seq<char>>::empty());
    assert(lines(a@) == seq![a@]);
    assert(texts(out@).len() == 1);
    assert(texts(out@)[0] == "cargo:warning="@ + a@);
}

/// The warnings of a text are that of its first line, without a carriage return at its end, and
/// then those of the rest.
pub proof fn law_warnings_go_on(
    line: Seq<char>,
    rest: &str,
    a: &str,
    rest_out: Vec<String>,
    out: Vec<String>,
)
    requires
        !line.contains('\n'),
        a@ == line + seq!['\n'] + rest@,
        call_ensures(warnln_impl, (rest,), rest_out),
        call_ensures(warnln_impl, (a,), out),
    ensures
        out.len() == rest_out.len() + 1,
        out[0]@ == "cargo:warning="@ + without_return(line),
        forall|i: int| 0 <= i < rest_out.len() ==> (#[trigger] out[i + 1])@ == rest_out[i]@,
{
    lemma_first_line(line, rest@);
    assert(texts(out@).len() == out.len());
    assert(texts(rest_out@).len() == rest_out.len());
    assert(texts(out@)[0] == "cargo:warning="@ + without_return(line));
    assert forall|i: int| 0 <= i < rest_out.len() implies (#[trigger] out[i + 1])@
        == rest_out[i]@ by {
        assert(texts(out@)[i + 1] == texts(rest_out@)[i]);
    }
}

// The generated C++.

/// The parameter of a capture is a reference to its type, behind its name, and constant unless
/// the capture is mutable. It is the capture alone that decides on it.
pub proof fn law_captures_are_references(sig: ClosureSig, list: Vec<String>)
    requires
        call_ensures(gen_params, (&sig,), list),
    ensures
        list.len() == sig.captures.len(),
        forall|i: int|
            0 <= i < sig.captures.len() && sig.captures[i].mutable ==> (#[trigger] list[i])@
                == sig.captures[i].cpp@ + " & "@ + sig.captures[i].name@,
        forall|i: int|
            0 <= i < sig.captures.len() && !sig.captures[i].mutable ==> (#[trigger] list[i])@
                == "const "@ + (sig.captures[i].cpp@ + " & "@ + sig.captures[i].name@),
{
    assert(texts(list@).len() == list.len());
    assert forall|i: int| 0 <= i < sig.captures.len() implies (#[trigger] list[i])@ == if sig.captures[i].mutable {
        sig.captures[i].cpp@ + " & "@ + sig.captures[i].name@
    } else {
        "const "@ + (sig.captures[i].cpp@ + " & "@ + sig.captures[i].name@)
    } by {
        assert(texts(list@)[i] == list[i]@);
        assert(list[i]@ == if sig.captures[i].mutable {
            sig.captures[i].cpp@ + " & "@ + sig.captures[i].name@
        } else {
            "const "@ + (sig.captures[i].cpp@ + " & "@ + sig.captures[i].name@)
        });
    }
}

/// The C++ that gives the size and the alignment of a type.
pub open spec fn measures(cpp: Seq<char>, text: Seq<char>) -> bool {
    text == "sizeof("@ + cpp + "), rustcpp::AlignOf<"@ + cpp + ">::value"@
}

/// What a closure returns is measured first, unless it is `void`, which alone counts as empty,
/// whatever the captures; then every capture is, in order.
pub proof fn law_types_are_measured(sig: ClosureSig, sizes: Vec<String>)
    requires
        call_ensures(gen_type_sizes, (&sig,), sizes),
    ensures
        sizes.len() == sig.captures.len() + 1,
        sizes[0]@ == "0, 1"@ <==> sig.cpp@ == "void"@,
        sig.cpp@ != "void"@ ==> measures(sig.cpp@, sizes[0]@),
        forall|i: int|
            0 <= i < sig.captures.len() ==> measures(
                sig.captures[i].cpp@,
                (#[trigger] sizes[i + 1])@,
            ),
{
    reveal_strlit("0, 1");
    reveal_strlit("sizeof(");
    assert(texts(sizes@).len() == sizes.len());
    assert(texts(sizes@)[0] == sizes[0]@);
    if sig.cpp@ != "void"@ {
        assert(measures(sig.cpp@, sizes[0]@));
        assert(sizes[0]@[0] == 's');
        assert("0, 1"@[0] == '0');
    }
    assert forall|i: int| 0 <= i < sig.captures.len() implies measures(
        sig.captures[i].cpp@,
        (#[trigger] sizes[i + 1])@,
    ) by {
        assert(texts(sizes@)[i + 1] == sizes[i + 1]@);
    }
}

/// A closure becomes the array of what `gen_type_sizes` returns for it, and a function that
/// returns its type, has the parameters of `gen_params`, and does what the body says.
pub proof fn law_closures_become_functions(
    name: &str,
    closure: Closure,
    sep: &str,
    sizes: Vec<String>,
    sizes_text: String,
    list: Vec<String>,
    list_text: String,
    text: String,
)
    requires
        sep@ == ", "@,
        call_ensures(gen_type_sizes, (&closure.sig,), sizes),
        call_ensures(join, (&sizes, sep), sizes_text),
        call_ensures(gen_params, (&closure.sig,), list),
        call_ensures(join, (&list, sep), list_text),
        call_ensures(gen_closure, (name, &closure), text),
    ensures
        text@ == "\nrustcpp::usize "@ + name@ + "_sizes[] = { "@ + sizes_text@ + " };\n"@ + (
        "\nextern \"C\" {\n"@ + closure.sig.cpp@ + " "@ + name@ + "("@ + list_text@ + ") {\n"@
            + closure.body.node@ + "\n}\n}\n"@),
{
}

/// The entry of a closure in the table gives its name in quotes, its array, and the length of
/// that.
pub proof fn law_entries_name_their_closure(name: &str, text: String)
    requires
        call_ensures(gen_table_entry, (name,), text),
    ensures
        text@ == "\n{\n    \""@ + name@ + "\",\n    "@ + name@ + "_sizes,\n    sizeof("@ + name@
            + "_sizes) / sizeof(rustcpp::usize),\n},"@,
{
}

proof fn lemma_closures_code_is_flat(
    closures: Seq<ClosureView>,
    names: Seq<Seq<char>>,
    codes: Seq<Seq<char>>,
    n: nat,
)
    requires
        n <= codes.len(),
        forall|i: int|
            0 <= i < n ==> #[trigger] codes[i] == sizes_array(names[i], closures[i].sig) + function(
                names[i],
                closures[i],
            ),
    ensures
        closures_code(closures, names, n) == codes.take(n as int).flatten(),
    decreases n,
{
    codes.take(n as int).lemma_flatten_and_flatten_alt_are_equivalent();
    if n > 0 {
        let less = (n - 1) as nat;
        lemma_closures_code_is_flat(closures, names, codes, less);
        codes.take(less as int).lemma_flatten_and_flatten_alt_are_equivalent();
        assert(codes.take(n as int).drop_last() == codes.take(less as int));
    }
}

proof fn lemma_table_entries_are_flat(names: Seq<Seq<char>>, entries: Seq<Seq<char>>, n: nat)
    requires
        n <= entries.len(),
        forall|i: int| 0 <= i < n ==> #[trigger] entries[i] == table_entry(names[i]),
    ensures
        table_entries(names, n) == entries.take(n as int).flatten(),
    decreases n,
{
    entries.take(n as int).lemma_flatten_and_flatten_alt_are_equivalent();
    if n > 0 {
        let less = (n - 1) as nat;
        lemma_table_entries_are_flat(names, entries, less);
        entries.take(less as int).lemma_flatten_and_flatten_alt_are_equivalent();
        assert(entries.take(n as int).drop_last() == entries.take(less as int));
    }
}

/// A library is the snippets, what `gen_closure` makes of every closure, and a table of what
/// `gen_table_entry` makes of every name, each once and in order.
pub proof fn law_libraries_hold_every_closure<'a>(
    visitor: Handle<'a>,
    names: Vec<String>,
    strs: Seq<&str>,
    codes: Seq<String>,
    entries: Seq<String>,
    text: String,
)
    requires
        names.len() == visitor.closures.len() == strs.len() == codes.len() == entries.len(),
        forall|i: int| 0 <= i < names.len() ==> (#[trigger] strs[i])@ == names[i]@,
        forall|i: int|
            0 <= i < names.len() ==> call_ensures(
                gen_closure,
                (strs[i], &visitor.closures[i]),
                #[trigger] codes[i],
            ),
        forall|i: int|
            0 <= i < names.len() ==> call_ensures(
                gen_table_entry,
                (strs[i],),
                #[trigger] entries[i],
            ),
        call_ensures(gen_cpp_lib_named, (&visitor, &names), text),
    ensures
        text@ == INTERNAL_CPP_STRUCTS@ + visitor.snippets@ + "\n\n"@ + codes.map_values(
            |code: String| code@,
        ).flatten() + "\nrustcpp::Size __cpp_sizes[] = { "@ + entries.map_values(
            |entry: String| entry@,
        ).flatten() + " { 0 } };\n"@,
{
    let n = names.len();
    let code_texts = codes.map_values(|code: String| code@);
    let entry_texts = entries.map_values(|entry: String| entry@);
    assert forall|i: int| 0 <= i < n implies #[trigger] code_texts[i] == sizes_array(
        texts(names@)[i],
        visitor@.closures[i].sig,
    ) + function(texts(names@)[i], visitor@.closures[i]) by {
        assert(code_texts[i] == codes[i]@);
        assert(strs[i]@ == names[i]@);
    }
    assert forall|i: int| 0 <= i < n implies #[trigger] entry_texts[i] == table_entry(
        texts(names@)[i],
    ) by {
        assert(entry_texts[i] == entries[i]@);
        assert(strs[i]@ == names[i]@);
    }
    lemma_closures_code_is_flat(visitor@.closures, texts(names@), code_texts, n as nat);
    lemma_table_entries_are_flat(texts(names@), entry_texts, n as nat);
    assert(code_texts.take(n as int) == code_texts);
    assert(entry_texts.take(n as int) == entry_texts);
}

/// The library of a crate is what `gen_cpp_lib_named` returns for names each of which may be that
/// of the signature of its own closure: the prefix and a number.
pub proof fn law_closures_bear_their_own_names<'a>(visitor: Handle<'a>, text: String)
    requires
        call_ensures(gen_cpp_lib, (&visitor,), text),
    ensures
        exists|names: Seq<Seq<char>>|
            {
                &&& names.len() == visitor.closures.len()
                &&& forall|i: int|
                    0 <= i < names.len() ==> may_be_named(
                        visitor.closures[i].sig@,
                        #[trigger] names[i],
                    )
                &&& forall|i: int|
                    0 <= i < names.len() ==> "__cpp_closure_"@.is_prefix_of(#[trigger] names[i])
                        && is_number(names[i].skip("__cpp_closure_"@.len() as int))
                &&& text@ == #[trigger] cpp_lib(visitor@, names)
                &&& forall|list: Vec<String>, named_text: String|
                    texts(list@) == names && #[trigger] call_ensures(
                        gen_cpp_lib_named,
                        (&visitor, &list),
                        named_text,
                    ) ==> named_text@ == text@
            },
{
    let names = choose|names: Seq<Seq<char>>|
        named(visitor@, names) && text@ == #[trigger] cpp_lib(visitor@, names);
    assert forall|i: int| 0 <= i < names.len() implies "__cpp_closure_"@.is_prefix_of(
        #[trigger] names[i],
    ) && is_number(names[i].skip("__cpp_closure_"@.len() as int)) by {
        let hash = choose|hash: u64| names[i] == closure_name(hash);
        lemma_decimal_reads_back(hash as nat);
        assert(names[i].skip("__cpp_closure_"@.len() as int) == decimal(hash as nat));
    }
    assert forall|i: int| 0 <= i < names.len() implies may_be_named(
        visitor.closures[i].sig@,
        #[trigger] names[i],
    ) by {
        assert(visitor@.closures[i].sig == visitor.closures[i].sig@);
    }
}

/// The program that prints the sizes goes over the table from its start to the entry without a
/// name, behind the definitions that the library starts with too.
pub proof fn law_programs_are_fixed(text: String)
    requires
        call_ensures(gen_sizes_cpp, (), text),
    ensures
        text@ == INTERNAL_CPP_STRUCTS@ + r#"
#include <stdio.h>
#include <string.h>

extern rustcpp::Size __cpp_sizes[];

int main() {{
    for (rustcpp::usize i = 0; __cpp_sizes[i].name; ++i) {{
        printf("%s", __cpp_sizes[i].name);
        rustcpp::usize *sizes = __cpp_sizes[i].sizes;
        for (rustcpp::usize j = 0; j < __cpp_sizes[i].sizes_len; ++j) {{
            printf(" %llu", sizes[j]);
        }}
        printf(";\n");
    }}
}}
"#@,
        INTERNAL_CPP_STRUCTS@ == r#"
namespace rustcpp {

typedef unsigned long long usize;

struct Size {
    const char *name;
    usize *sizes;
    usize sizes_len;
};

template<typename T>
struct AlignOf {
    struct Inner {
        char a;
        T b;
    };
    static const unsigned long long value = sizeof(Inner) - sizeof(T);
};

} // namespace rustcpp
"#@,
{
}

// The steps of a build.

/// Whether an argument is this text.
pub open spec fn is_text(arg: Arg, text: Seq<char>) -> bool {
    arg matches Arg::Text(shown) && shown@ == text
}

/// Whether an argument is the path of this artifact.
pub open spec fn is_path(arg: Arg, artifact: Artifact) -> bool {
    arg == Arg::Path(artifact)
}

/// Whether an argument is the path of this artifact directly behind a text.
pub open spec fn is_prefixed(arg: Arg, pre: Seq<char>, artifact: Artifact) -> bool {
    arg matches Arg::Prefixed(shown, path) && shown@ == pre && path == artifact
}

/// An argument with a prefix goes behind the others, which stay.
pub proof fn law_prefixed_paths_are_added(cmd: &mut Vec<Arg>, pre: &str, path: Artifact)
    requires
        call_ensures(msvc_path, (cmd, pre, path), ()),
    ensures
        final(cmd).len() == old(cmd).len() + 1,
        is_prefixed(final(cmd)@.last(), pre@, path),
        forall|i: int|
            0 <= i < old(cmd).len() ==> (#[trigger] final(cmd)@[i])@ == old(cmd)@[i]@,
{
    assert(args_view(final(cmd)@).len() == final(cmd)@.len());
    assert(args_view(old(cmd)@).len() == old(cmd)@.len());
    assert(args_view(final(cmd)@).last() == final(cmd)@.last()@);
    assert forall|i: int| 0 <= i < old(cmd).len() implies (#[trigger] final(cmd)@[i])@
        == old(cmd)@[i]@ by {
        assert(args_view(final(cmd)@)[i] == args_view(old(cmd)@)[i]);
    }
}

/// A target that names `msvc` has its compiler told to link with Visual Studio, and every other
/// target to compile the program with the archive.
pub proof fn law_msvc_alone_links_its_own_way(target: &str, args: Vec<Arg>)
    requires
        call_ensures(gen_sizes_exe, (target,), args),
    ensures
        stands_in("msvc"@, target@) <==> exists|i: int|
            0 <= i < args.len() && is_text(#[trigger] args[i], "/link"@),
        stands_in("msvc"@, target@) <==> exists|i: int|
            0 <= i < args.len() && is_path(#[trigger] args[i], Artifact::MsvcLibrary),
        !stands_in("msvc"@, target@) ==> {
            &&& args.len() == 4
            &&& is_text(args[0], "-o"@)
            &&& is_path(args[1], Artifact::SizesProgram)
            &&& is_path(args[2], Artifact::SizesSource)
            &&& is_path(args[3], Artifact::Library)
        },
        stands_in("msvc"@, target@) ==> {
            &&& args.len() == 6
            &&& is_prefixed(args[0], "/Fo"@, Artifact::SizesObject)
            &&& is_path(args[1], Artifact::SizesSource)
            &&& is_path(args[2], Artifact::MsvcLibrary)
            &&& is_text(args[3], "/link"@)
            &&& is_prefixed(args[4], "/OUT:"@, Artifact::SizesProgram)
            &&& is_prefixed(args[5], "/FDB:"@, Artifact::SizesDatabase)
        },
{
    lemma_occurs("msvc"@, target@);
    reveal_strlit("-o");
    reveal_strlit("/link");
    let view = args_view(args@);
    assert(view.len() == args.len());
    assert(view == sizes_args(target@));
    assert forall|i: int| 0 <= i < args.len() implies #[trigger] view[i] == args[i]@ by {}
    if stands_in("msvc"@, target@) {
        assert(args.len() == 6);
        assert(view[0] == args[0]@ && view[1] == args[1]@ && view[2] == args[2]@);
        assert(view[3] == args[3]@ && view[4] == args[4]@ && view[5] == args[5]@);
    } else {
        assert(args.len() == 4);
        assert(view[0] == args[0]@ && view[1] == args[1]@ && view[2] == args[2]@);
        assert(view[3] == args[3]@);
        assert("-o"@.len() != "/link"@.len());
        assert forall|i: int| 0 <= i < args.len() implies !is_text(#[trigger] args[i], "/link"@)
            && !is_path(args[i], Artifact::MsvcLibrary) by {
            assert(i == 0 || i == 1 || i == 2 || i == 3);
        }
    }
}

/// Once the compiler ran, what it printed is shown, then what `warnln_impl` makes of its errors;
/// a failure is reported unless it succeeded.
pub proof fn law_compiler_output_is_shown(
    out: String,
    err: &str,
    success: bool,
    shown: Vec<String>,
    action: Action,
)
    requires
        call_ensures(warnln_impl, (err,), shown),
        call_ensures(gen_ran, (out, err, success), action),
    ensures
        action matches Action::Finish(lines, failure) && {
            &&& lines.len() == shown.len() + 1
            &&& lines[0]@ == out@
            &&& forall|i: int| 0 <= i < shown.len() ==> (#[trigger] lines[i + 1])@ == shown[i]@
            &&& success ==> failure is None
            &&& !success ==> (failure matches Some(message) && message@
                == "Compiler for building sizes exited with non-zero status code"@)
        },
{
    let lines = action->Finish_0;
    assert(texts(lines@).len() == lines.len());
    assert(texts(shown@).len() == shown.len());
    assert(texts(lines@)[0] == lines[0]@);
    assert forall|i: int| 0 <= i < shown.len() implies (#[trigger] lines[i + 1])@ == shown[i]@ by {
        assert(texts(lines@)[i + 1] == texts(shown@)[i]);
    }
}

/// A build starts by asking whether an earlier one has left its directory, and keeps the crate
/// root and the configuration.
pub proof fn law_builds_start_by_cleaning(
    config: &mut Config,
    crate_root: PathBuf,
    first: (Step, Action),
)
    requires
        call_ensures(Config::build, (config, crate_root), first),
    ensures
        first.0 == Step::Cleaning(crate_root),
        first.1 is CheckDirectory,
        *final(config) == *old(config),
{
}

/// The build of a crate starts as that of a new configuration does.
pub proof fn law_crates_are_built_with_a_new_configuration(
    path: PathBuf,
    first: (Config, Step, Action),
    config: Config,
)
    requires
        call_ensures(crate::build, (path,), first),
        call_ensures(Config::new, (), config),
    ensures
        first.0@ == config@,
        first.1 == Step::Cleaning(path),
        first.2 is CheckDirectory,
{
}

/// Whether a step waits for such an event.
pub open spec fn waits_for(step: Step, event: Event) -> bool {
    match event {
        Event::DirectoryChecked(_) => step is Cleaning,
        Event::DirectoryRemoved => step is Removing,
        Event::DirectoryCreated => step is Creating,
        Event::CrateParsed(_) => step is Parsing,
        Event::ParseFailed(_) => step is Parsing,
        Event::LibraryWritten => step is WritingLibrary,
        Event::LibraryCompiled => step is Compiling,
        Event::SizesWritten(_) => step is WritingSizes,
        Event::CompilerRan(_, _, _) => step is RunningCompiler,
        Event::WriteFailed(_) => step is WritingLibrary || step is WritingSizes,
        Event::Failed(_) => {
            ||| step is Removing
            ||| step is Creating
            ||| step is WritingLibrary
            ||| step is WritingSizes
            ||| step is RunningCompiler
        },
    }
}

/// A build goes on where, and only where, an event comes that its step waits for. All that it
/// changes of the configuration is to add the source of the library, once that is written.
pub proof fn law_builds_wait_for_their_events<'a, 'b>(
    config: &mut Config,
    step: Step,
    event: Event<'a, 'b>,
    following: Option<(Step, Action)>,
)
    requires
        call_ensures(Config::advance, (config, step, event), following),
    ensures
        following is Some <==> waits_for(step, event),
        (ConfigView { files: old(config)@.files, ..final(config)@ }) == old(config)@,
        event is LibraryWritten && step is WritingLibrary ==> final(config)@.files == old(
            config,
        )@.files.push(Input::Generated(Artifact::LibrarySource)),
        !(event is LibraryWritten && step is WritingLibrary) ==> final(config)@.files == old(
            config,
        )@.files,
{
}

/// The directory of an earlier build is removed and made anew, and then the crate is parsed.
pub proof fn law_builds_make_way<'a, 'b>(
    config: &mut Config,
    root: PathBuf,
    step: Step,
    event: Event<'a, 'b>,
    following: Option<(Step, Action)>,
)
    requires
        call_ensures(Config::advance, (config, step, event), following),
    ensures
        step == Step::Cleaning(root) && event == Event::<'a, 'b>::DirectoryChecked(true) ==> (
        following matches Some((Step::Removing(kept), Action::RemoveDirectory)) && kept == root),
        step == Step::Cleaning(root) && event == Event::<'a, 'b>::DirectoryChecked(false) ==> (
        following matches Some((Step::Creating(kept), Action::CreateDirectory)) && kept == root),
        step == Step::Removing(root) && event is DirectoryRemoved ==> (
        following matches Some((Step::Creating(kept), Action::CreateDirectory)) && kept == root),
        step == Step::Creating(root) && event is DirectoryCreated ==> (
        following matches Some((Step::Parsing, Action::ParseCrate(kept))) && kept == root),
{
}

/// What was collected from a crate is generated and written, compiled with the files of the
/// configuration, and then measured: what is written and run is what the generators return.
pub proof fn law_builds_generate_and_compile<'a, 'b>(
    config: &mut Config,
    step: Step,
    event: Event<'a, 'b>,
    following: Option<(Step, Action)>,
    program: String,
    target: &str,
    args: Vec<Arg>,
)
    requires
        call_ensures(Config::advance, (config, step, event), following),
        call_ensures(gen_sizes_cpp, (), program),
        call_ensures(gen_sizes_exe, (target,), args),
    ensures
        step is Parsing && event is CrateParsed ==> (following matches Some(
            (Step::WritingLibrary, Action::WriteFile(file, text)),
        ) && file == Artifact::LibrarySource && generated(event->CrateParsed_0@, text@)),
        step is WritingLibrary && event is LibraryWritten ==> following matches Some(
            (Step::Compiling, Action::CompileLibrary),
        ),
        step is Compiling && event is LibraryCompiled ==> (following matches Some(
            (Step::WritingSizes, Action::WriteFile(file, text)),
        ) && file == Artifact::SizesSource && text@ == program@),
        step is WritingSizes && event is SizesWritten && event->SizesWritten_0@ == target@ ==> (
        following matches Some((Step::RunningCompiler, Action::RunCompiler(run))) && args_view(run@)
            == args_view(args@)),
{
}

/// A crate that cannot be parsed is no failure: all that is done is to warn of it, with the
/// reason among the lines.
pub proof fn law_parse_failures_warn<'a, 'b>(
    config: &mut Config,
    step: Step,
    event: Event<'a, 'b>,
    following: Option<(Step, Action)>,
    message: &str,
    shown: Vec<String>,
)
    requires
        step is Parsing,
        event is ParseFailed,
        message@ == r#"-- rust-cpp parse error --

There was an error parsing the crate for the rust-cpp build script:

"#@ + event->ParseFailed_0@ + r#"

In order to provide a better error message, the build script will exit
successfully, such that rustc can provide an error message."#@,
        call_ensures(Config::advance, (config, step, event), following),
        call_ensures(warnln_impl, (message,), shown),
    ensures
        following matches Some((Step::Finished, Action::Finish(lines, None))) && texts(lines@)
            == texts(shown@),
{
}

/// Once the compiler ran, the build ends with what `gen_ran` makes of its output.
pub proof fn law_builds_end_with_the_compiler<'a, 'b>(
    config: &mut Config,
    step: Step,
    event: Event<'a, 'b>,
    following: Option<(Step, Action)>,
    out: String,
    err: &str,
    action: Action,
)
    requires
        step is RunningCompiler,
        event is CompilerRan,
        out@ == lossy(event->CompilerRan_0@),
        err@ == lossy(event->CompilerRan_1@),
        call_ensures(Config::advance, (config, step, event), following),
        call_ensures(gen_ran, (out, err, event->CompilerRan_2), action),
    ensures
        following matches Some((Step::Finished, last)) && last@ == action@,
{
}

/// What cannot be done ends the build with a panic, which says what could not be done and gives
/// the error.
pub proof fn law_failures_end_the_build<'a, 'b>(
    config: &mut Config,
    step: Step,
    event: Event<'a, 'b>,
    following: Option<(Step, Action)>,
)
    requires
        waits_for(step, event),
        event is Failed || event is WriteFailed,
        call_ensures(Config::advance, (config, step, event), following),
    ensures
        following matches Some((Step::Finished, Action::Finish(lines, Some(message)))) && {
            &&& lines.len() == 0
            &&& event matches Event::WriteFailed(error) ==> message@
                == "called `Result::unwrap()` on an `Err` value"@ + ": "@ + error@
            &&& event matches Event::Failed(error) ==> {
                &&& step is Removing ==> message@ == r#"
-- rust-cpp fatal error --

Failed to remove existing build artifacts from output directory."#@ + ": "@ + error@
                &&& step is Creating ==> message@ == r#"
-- rust-cpp fatal error --

Failed to create output object directory."#@ + ": "@ + error@
                &&& step is WritingLibrary ==> message@
                    == "Unable to generate temporary C++ file"@ + ": "@ + error@
                &&& step is WritingSizes ==> message@
                    == "Could not create cpp for computing sizes"@ + ": "@ + error@
                &&& step is RunningCompiler ==> message@
                    == "Unable to execute compiler to build sizes script"@ + ": "@ + error@
            }
        },
{
    let lines = following.unwrap().1->Finish_0;
    assert(texts(lines@).len() == lines.len());
}

// The options of a build. Where an option is set, the others stay as they are: with its old value
// put back, the configuration is the old one. What is done to the configuration that is returned
// is done to the one that was set.

/// Nothing is set of a new configuration, but that it is one for C++ and that cargo is told.
pub proof fn law_nothing_is_set_at_first(config: Config)
    requires
        call_ensures(Config::new, (), config),
    ensures
        config.include_directories.len() == 0,
        config.definitions.len() == 0,
        config.objects.len() == 0,
        config.flags.len() == 0,
        config.files.len() == 0,
        config.cpp,
        config.cpp_link_stdlib is None,
        config.cpp_set_stdlib is None,
        config.host is None,
        config.opt_level is None,
        config.debug is None,
        config.compiler is None,
        config.archiver is None,
        config.cargo_metadata,
        config.pic is None,
{
    assert(config@.definitions.len() == config.definitions.len());
    assert(config@.flags.len() == config.flags.len());
}

/// The text of an optional string.
pub open spec fn text_of_option(value: Option<&str>) -> Option<Seq<char>> {
    if value is Some {
        Some(value->0@)
    } else {
        None
    }
}

/// A directory for headers goes behind the others.
pub proof fn law_include_directories_are_added(config: &mut Config, dir: PathBuf, set: &mut Config)
    requires
        call_ensures(Config::include_dir, (config, dir), set),
    ensures
        old(set)@.include_directories == old(config)@.include_directories.push(dir),
        (ConfigView { include_directories: old(config)@.include_directories, ..old(set)@ }) == old(config)@,
        *final(config) == *final(set),
{
}

/// A definition goes behind the others, with its value or without.
pub proof fn law_definitions_are_added(config: &mut Config, var: &str, val: Option<&str>, set: &mut Config)
    requires
        call_ensures(Config::define, (config, var, val), set),
    ensures
        old(set)@.definitions == old(config)@.definitions.push((var@, text_of_option(val))),
        (ConfigView { definitions: old(config)@.definitions, ..old(set)@ }) == old(config)@,
        *final(config) == *final(set),
{
}

/// An object goes behind the others.
pub proof fn law_objects_are_added(config: &mut Config, obj: PathBuf, set: &mut Config)
    requires
        call_ensures(Config::object, (config, obj), set),
    ensures
        old(set)@.objects == old(config)@.objects.push(obj),
        (ConfigView { objects: old(config)@.objects, ..old(set)@ }) == old(config)@,
        *final(config) == *final(set),
{
}

/// A flag goes behind the others.
pub proof fn law_flags_are_added(config: &mut Config, flag: &str, set: &mut Config)
    requires
        call_ensures(Config::flag, (config, flag), set),
    ensures
        old(set)@.flags == old(config)@.flags.push(flag@),
        (ConfigView { flags: old(config)@.flags, ..old(set)@ }) == old(config)@,
        *final(config) == *final(set),
{
}

/// A file goes behind the others.
pub proof fn law_files_are_added(config: &mut Config, p: PathBuf, set: &mut Config)
    requires
        call_ensures(Config::file, (config, p), set),
    ensures
        old(set)@.files == old(config)@.files.push(Input::Path(p)),
        (ConfigView { files: old(config)@.files, ..old(set)@ }) == old(config)@,
        *final(config) == *final(set),
{
}

/// The library to link is set, or that there is none.
pub proof fn law_the_stdlib_to_link_is_set(config: &mut Config, stdlib: Option<&str>, set: &mut Config)
    requires
        call_ensures(Config::cpp_link_stdlib, (config, stdlib), set),
    ensures
        old(set)@.cpp_link_stdlib == Some(text_of_option(stdlib)),
        (ConfigView { cpp_link_stdlib: old(config)@.cpp_link_stdlib, ..old(set)@ }) == old(config)@,
        *final(config) == *final(set),
{
}

/// The host is set.
pub proof fn law_the_host_is_set(config: &mut Config, host: &str, set: &mut Config)
    requires
        call_ensures(Config::host, (config, host), set),
    ensures
        old(set)@.host == Some(host@),
        (ConfigView { host: old(config)@.host, ..old(set)@ }) == old(config)@,
        *final(config) == *final(set),
{
}

/// The optimization level is set to the text.
pub proof fn law_levels_are_set_by_name(config: &mut Config, level: &str, set: &mut Config)
    requires
        call_ensures(Config::opt_level_str, (config, level), set),
    ensures
        old(set)@.opt_level == Some(level@),
        (ConfigView { opt_level: old(config)@.opt_level, ..old(set)@ }) == old(config)@,
        *final(config) == *final(set),
{
}

/// Whether there is debug information is set.
pub proof fn law_debugging_is_set(config: &mut Config, debug: bool, set: &mut Config)
    requires
        call_ensures(Config::debug, (config, debug), set),
    ensures
        old(set)@.debug == Some(debug),
        (ConfigView { debug: old(config)@.debug, ..old(set)@ }) == old(config)@,
        *final(config) == *final(set),
{
}

/// The compiler is set.
pub proof fn law_the_compiler_is_set(config: &mut Config, compiler: PathBuf, set: &mut Config)
    requires
        call_ensures(Config::compiler, (config, compiler), set),
    ensures
        old(set)@.compiler == Some(compiler),
        (ConfigView { compiler: old(config)@.compiler, ..old(set)@ }) == old(config)@,
        *final(config) == *final(set),
{
}

/// The archiver is set.
pub proof fn law_the_archiver_is_set(config: &mut Config, archiver: PathBuf, set: &mut Config)
    requires
        call_ensures(Config::archiver, (config, archiver), set),
    ensures
        old(set)@.archiver == Some(archiver),
        (ConfigView { archiver: old(config)@.archiver, ..old(set)@ }) == old(config)@,
        *final(config) == *final(set),
{
}

/// Whether cargo is told is set.
pub proof fn law_telling_cargo_is_set(config: &mut Config, told: bool, set: &mut Config)
    requires
        call_ensures(Config::cargo_metadata, (config, told), set),
    ensures
        old(set)@.cargo_metadata == told,
        (ConfigView { cargo_metadata: old(config)@.cargo_metadata, ..old(set)@ }) == old(config)@,
        *final(config) == *final(set),
{
}

/// Whether the code is position independent is set.
pub proof fn law_position_independence_is_set(config: &mut Config, pic: bool, set: &mut Config)
    requires
        call_ensures(Config::pic, (config, pic), set),
    ensures
        old(set)@.pic == Some(pic),
        (ConfigView { pic: old(config)@.pic, ..old(set)@ }) == old(config)@,
        *final(config) == *final(set),
{
}

/// The optimization level is set to the number in decimal.
pub proof fn law_levels_are_set_by_number(config: &mut Config, level: u32, set: &mut Config)
    requires
        call_ensures(Config::opt_level, (config, level), set),
    ensures
        old(set)@.opt_level is Some,
        is_number(old(set)@.opt_level->0),
        value(old(set)@.opt_level->0) == level,
        (ConfigView { opt_level: old(config)@.opt_level, ..old(set)@ }) == old(config)@,
        *final(config) == *final(set),
{
    lemma_decimal_reads_back(level as nat);
}

/// The library to use is set, and with it the one to link, to the same.
pub proof fn law_the_stdlib_to_use_is_linked(
    config: &mut Config,
    stdlib: Option<&str>,
    set: &mut Config,
)
    requires
        call_ensures(Config::cpp_set_stdlib, (config, stdlib), set),
    ensures
        old(set)@.cpp_set_stdlib == text_of_option(stdlib),
        old(set)@.cpp_link_stdlib == Some(old(set)@.cpp_set_stdlib),
        (ConfigView {
            cpp_set_stdlib: old(config)@.cpp_set_stdlib,
            cpp_link_stdlib: old(config)@.cpp_link_stdlib,
            ..old(set)@
        }) == old(config)@,
        *final(config) == *final(set),
{
}

// The sources of a crate.

/// Whether a file holds a span: its first and its last offset are among those of the text, or
/// directly behind it.
pub open spec fn lies_in(file: SourceFile, lo: int, hi: int) -> bool {
    file.start <= lo && lo <= hi && hi <= file.start + encode_utf8(file.text).len()
}

/// The file of a span is the first one that holds it.
pub proof fn law_the_first_file_is_taken(files: Seq<SourceFile>, span: Span, i: int)
    requires
        0 <= i < files.len(),
        lies_in(files[i], span.lo as int, span.hi as int),
        forall|j: int| 0 <= j < i ==> !lies_in(#[trigger] files[j], span.lo as int, span.hi as int),
    ensures
        file_of(files, span) == Some(files[i]),
{
    lemma_file_index(files, span, 0);
    let found = file_index(files, span, 0);
    assert(files[i].holds(span));
    assert(found is Some);
    if found->0 < i {
        assert(!lies_in(files[found->0], span.lo as int, span.hi as int));
    } else if found->0 > i {
        lemma_nothing_is_passed(files, span, 0, i);
    }
}

/// The search passes over no file that holds the span.
proof fn lemma_nothing_is_passed(files: Seq<SourceFile>, span: Span, from: int, i: int)
    requires
        0 <= from <= i < files.len(),
        files[i].holds(span),
    ensures
        file_index(files, span, from) matches Some(found) && found <= i,
    decreases i - from,
{
    if !files[from].holds(span) {
        lemma_nothing_is_passed(files, span, from + 1, i);
    }
}

/// A span that no file holds has no file.
pub proof fn law_no_file_is_made_up(files: Seq<SourceFile>, span: Span)
    requires
        forall|j: int|
            0 <= j < files.len() ==> !lies_in(
                #[trigger] files[j],
                span.lo as int,
                span.hi as int,
            ),
    ensures
        file_of(files, span) is None,
{
    lemma_file_index(files, span, 0);
    match file_index(files, span, 0) {
        Some(i) => {
            assert(lies_in(files[i], span.lo as int, span.hi as int));
        },
        None => {},
    }
}

/// The text of a span has the bytes that its file has between the offsets.
pub proof fn law_texts_are_cut_from_their_file(files: Seq<SourceFile>, span: Span, file: SourceFile)
    requires
        file_of(files, span) == Some(file),
        is_char_boundary(encode_utf8(file.text), span.lo - file.start),
        is_char_boundary(encode_utf8(file.text), span.hi - file.start),
    ensures
        text_of(files, span) is Some,
        encode_utf8(text_of(files, span)->0) == encode_utf8(file.text).subrange(
            span.lo - file.start,
            span.hi - file.start,
        ),
{
    lemma_file_index(files, span, 0);
    let bytes = encode_utf8(file.text);
    let lo = span.lo - file.start;
    let hi = span.hi - file.start;
    encode_utf8_valid_utf8(file.text);
    valid_utf8_split(bytes, hi);
    let head = bytes.subrange(0, hi);
    if lo == hi {
        is_char_boundary_start_end_of_seq(head);
    } else {
        is_char_boundary_iff_not_is_continuation_byte(bytes, lo);
        is_char_boundary_iff_not_is_continuation_byte(head, lo);
    }
    valid_utf8_split(head, lo);
    assert(head.subrange(lo, head.len() as int) == bytes.subrange(lo, hi));
    decode_utf8_encode_utf8(bytes.subrange(lo, hi));
}

/// The number of line feeds among bytes.
pub open spec fn line_feeds(bytes: Seq<u8>) -> nat {
    bytes.filter(|byte: u8| byte == 10).len()
}

/// Lines are counted from one, by the line feeds in front.
pub proof fn law_lines_are_counted(bytes: Seq<u8>)
    ensures
        line_after(bytes) == 1 + line_feeds(bytes),
    decreases bytes.len(),
{
    reveal(Seq::filter);
    if bytes.len() > 0 {
        law_lines_are_counted(bytes.drop_last());
    }
}

/// Whether bytes end with a line of so many bytes, which a line feed or nothing stands before.
pub open spec fn is_column(bytes: Seq<u8>, column: nat) -> bool {
    &&& column <= bytes.len()
    &&& forall|i: int| bytes.len() - column <= i < bytes.len() ==> #[trigger] bytes[i] != 10
    &&& column < bytes.len() ==> bytes[bytes.len() - column - 1] == 10
}

/// Columns are counted from the last line feed.
pub proof fn law_columns_are_counted(bytes: Seq<u8>)
    ensures
        is_column(bytes, column_after(bytes)),
    decreases bytes.len(),
{
    if bytes.len() > 0 && bytes.last() != 10 {
        law_columns_are_counted(bytes.drop_last());
        let column = column_after(bytes);
        assert(column == column_after(bytes.drop_last()) + 1);
        assert forall|i: int| bytes.len() - column <= i < bytes.len() implies #[trigger] bytes[i]
            != 10 by {
            if i < bytes.len() - 1 {
                assert(bytes.drop_last()[i] != 10);
            }
        }
        if column < bytes.len() {
            assert(bytes.drop_last()[bytes.len() - column - 1] == 10);
        }
    }
}

// The code of an invocation.

/// Whether a text is code behind a directive, which reads as this line of the file at this path,
/// and behind as many blanks as the column counts.
pub open spec fn reads_as(
    node: Seq<char>,
    path: Seq<char>,
    line: nat,
    column: nat,
    code: Seq<char>,
) -> bool {
    exists|number: Seq<char>, indent: Seq<char>|
        {
            &&& #[trigger] is_number(number)
            &&& value(number) == line
            &&& #[trigger] indent.len() == column
            &&& forall|i: int| 0 <= i < column ==> #[trigger] indent[i] == ' '
            &&& node == "#line "@ + number + " "@ + path + "\n"@ + indent + code
        }
}

proof fn lemma_located(path: Seq<char>, line: nat, column: nat, code: Seq<char>)
    ensures
        reads_as(located(path, line, column, code), path, line, column, code),
{
    lemma_decimal_reads_back(line);
    let number = decimal(line);
    let indent = blanks(column);
    assert(is_number(number) && indent.len() == column);
}

/// Code is put behind a directive that reads as its place.
pub proof fn law_directives_read_back(loc: LocInfo, code: &str, node: String)
    requires
        call_ensures(locate, (&loc, code), node),
    ensures
        reads_as(node@, loc.path@, loc.line as nat, loc.col as nat, code@),
{
    lemma_located(loc.path@, loc.line as nat, loc.col as nat, code@);
}

/// What stands on different lines is put behind different directives.
pub proof fn law_directives_tell_lines_apart(
    first: LocInfo,
    second: LocInfo,
    first_code: &str,
    second_code: &str,
    first_node: String,
    second_node: String,
)
    requires
        call_ensures(locate, (&first, first_code), first_node),
        call_ensures(locate, (&second, second_code), second_node),
        first_node@ == second_node@,
    ensures
        first.line == second.line,
{
    let a = decimal(first.line as nat);
    let b = decimal(second.line as nat);
    lemma_decimal_reads_back(first.line as nat);
    lemma_decimal_reads_back(second.line as nat);
    reveal_strlit("#line ");
    reveal_strlit(" ");
    let node = first_node@;
    assert(node.subrange(6, 6 + a.len() as int) == a);
    assert(node[6 + a.len() as int] == ' ');
    assert(node.subrange(6, 6 + b.len() as int) == b);
    assert(node[6 + b.len() as int] == ' ');
    if a.len() < b.len() {
        assert(node.subrange(6, 6 + b.len() as int)[a.len() as int] == ' ');
    } else if b.len() < a.len() {
        assert(node.subrange(6, 6 + a.len() as int)[b.len() as int] == ' ');
    }
    assert(a == b);
}

proof fn lemma_encode_concat(a: Seq<char>, b: Seq<char>)
    ensures
        encode_utf8(a + b) == encode_utf8(a) + encode_utf8(b),
        is_char_boundary(encode_utf8(a + b), encode_utf8(a).len() as int),
    decreases a.len(),
{
    encode_utf8_valid_utf8(a + b);
    if a.len() == 0 {
        assert(a + b == b);
        assert(encode_utf8(a) + encode_utf8(b) == encode_utf8(b));
    } else {
        lemma_encode_concat(a.drop_first(), b);
        assert((a + b).drop_first() == a.drop_first() + b);
        assert(encode_utf8(a + b) == encode_utf8(a) + encode_utf8(b));
        encode_utf8_first_scalar(a + b);
        assert(pop_first_scalar(encode_utf8(a + b)) == encode_utf8(a.drop_first() + b));
    }
}

/// A part of a text can be cut out of it by its bytes, and that part is cut out.
proof fn lemma_parts_are_cut(before: Seq<char>, code: Seq<char>, behind: Seq<char>, span: Span)
    requires
        span.lo == encode_utf8(before).len(),
        span.hi == span.lo + encode_utf8(code).len(),
    ensures
        cuttable(before + code + behind, span),
        cut(before + code + behind, span) == code,
        span.hi <= encode_utf8(before + code + behind).len(),
{
    let text = before + code + behind;
    lemma_encode_concat(before, code + behind);
    lemma_encode_concat(before + code, behind);
    lemma_encode_concat(before, code);
    assert(before + (code + behind) == text);
    assert(encode_utf8(text).subrange(span.lo as int, span.hi as int) == encode_utf8(code));
    encode_utf8_decode_utf8(code);
}

/// Only a part of a text can be cut out of it.
proof fn lemma_cuts_are_parts(text: Seq<char>, span: Span) -> (parts: (
    Seq<char>,
    Seq<char>,
    Seq<char>,
))
    requires
        cuttable(text, span),
    ensures
        text == parts.0 + parts.1 + parts.2,
        span.lo == encode_utf8(parts.0).len(),
        span.hi == span.lo + encode_utf8(parts.1).len(),
{
    let bytes = encode_utf8(text);
    let lo = span.lo as int;
    let hi = span.hi as int;
    encode_utf8_valid_utf8(text);
    encode_utf8_decode_utf8(text);
    valid_utf8_split(bytes, hi);
    decode_utf8_split(bytes, hi);
    let head = bytes.subrange(0, hi);
    if lo == hi {
        is_char_boundary_start_end_of_seq(head);
    } else {
        is_char_boundary_iff_not_is_continuation_byte(bytes, lo);
        is_char_boundary_iff_not_is_continuation_byte(head, lo);
    }
    valid_utf8_split(head, lo);
    decode_utf8_split(head, lo);
    let tail = bytes.subrange(hi, bytes.len() as int);
    let front = head.subrange(0, lo);
    let middle = head.subrange(lo, hi);
    decode_utf8_encode_utf8(front);
    decode_utf8_encode_utf8(middle);
    (decode_utf8(front), decode_utf8(middle), decode_utf8(tail))
}

/// Whether a span is that of a part of the text, by its bytes.
pub open spec fn is_part(text: Seq<char>, span: Span) -> bool {
    exists|before: Seq<char>, code: Seq<char>, behind: Seq<char>|
        {
            &&& text == #[trigger] (before + code + behind)
            &&& span.lo == encode_utf8(before).len()
            &&& span.hi == span.lo + encode_utf8(code).len()
        }
}

/// Code from a string literal, which has no span, is kept as it is.
pub proof fn law_code_without_a_span_is_kept(
    spanned: &mut Spanned,
    src: &str,
    offset: usize,
    sm: SourceMap,
    done: Result<(), MacroError>,
)
    requires
        old(spanned).span.lo == usize::MAX,
        old(spanned).span.hi == usize::MAX,
        call_ensures(extract_with_span, (spanned, src, offset, &sm), done),
    ensures
        done is Ok,
        final(spanned)@ == old(spanned)@,
{
}

/// Code that is a part of an invocation is replaced by that part, behind a directive that reads
/// as its place in the sources: the line by the line feeds, and the column by the bytes, of the
/// file in front of it.
pub proof fn law_code_is_put_at_its_place(
    spanned: &mut Spanned,
    before: Seq<char>,
    code: Seq<char>,
    behind: Seq<char>,
    src: &str,
    offset: usize,
    sm: SourceMap,
    i: int,
    done: Result<(), MacroError>,
)
    requires
        src@ == before + code + behind,
        old(spanned).span.lo == encode_utf8(before).len(),
        old(spanned).span.hi == old(spanned).span.lo + encode_utf8(code).len(),
        old(spanned).span.lo < usize::MAX,
        offset + encode_utf8(src@).len() <= usize::MAX,
        0 <= i < source_files(sm).len(),
        lies_in(
            source_files(sm)[i],
            old(spanned).span.lo + offset,
            old(spanned).span.hi + offset,
        ),
        forall|j: int|
            0 <= j < i ==> !lies_in(
                #[trigger] source_files(sm)[j],
                old(spanned).span.lo + offset,
                old(spanned).span.hi + offset,
            ),
        call_ensures(extract_with_span, (spanned, src, offset, &sm), done),
    ensures
        done is Ok,
        final(spanned).span.lo == old(spanned).span.lo + offset,
        final(spanned).span.hi == old(spanned).span.hi + offset,
        ({
            let file = source_files(sm)[i];
            let front = encode_utf8(file.text).take(old(spanned).span.lo + offset - file.start);
            exists|column: nat|
                #[trigger] is_column(front, column) && reads_as(
                    final(spanned).node@,
                    file.path,
                    1 + line_feeds(front),
                    column,
                    code,
                )
        }),
{
    let files = source_files(sm);
    let file = files[i];
    let span = old(spanned).span;
    lemma_parts_are_cut(before, code, behind, span);
    let placed = Span { lo: (span.lo + offset) as usize, hi: (span.hi + offset) as usize };
    assert(span.moved(offset as int) == placed);
    law_the_first_file_is_taken(files, placed, i);
    let front = encode_utf8(file.text).take(span.lo + offset - file.start);
    assert(front == file.bytes_before(placed));
    law_lines_are_counted(front);
    law_columns_are_counted(front);
    lemma_located(file.path, line_after(front), column_after(front), code);
    assert(is_column(front, column_after(front)));
}

/// Code that is no part of an invocation, or lies in no file, is refused, and stays as it is.
pub proof fn law_code_out_of_place_is_refused(
    spanned: &mut Spanned,
    src: &str,
    offset: usize,
    sm: SourceMap,
    done: Result<(), MacroError>,
)
    requires
        old(spanned).span.lo < usize::MAX || old(spanned).span.hi < usize::MAX,
        offset + encode_utf8(src@).len() <= usize::MAX,
        call_ensures(extract_with_span, (spanned, src, offset, &sm), done),
    ensures
        !is_part(src@, old(spanned).span) ==> done matches Err(MacroError::BadBody),
        is_part(src@, old(spanned).span) && (forall|j: int|
            0 <= j < source_files(sm).len() ==> !lies_in(
                #[trigger] source_files(sm)[j],
                old(spanned).span.lo + offset,
                old(spanned).span.hi + offset,
            )) ==> done matches Err(MacroError::NoLocation(_)),
        done is Err ==> *final(spanned) == *old(spanned),
{
    let span = old(spanned).span;
    let files = source_files(sm);
    if cuttable(src@, span) {
        let (before, code, behind) = lemma_cuts_are_parts(src@, span);
        assert(src@ == before + code + behind);
    }
    if is_part(src@, span) {
        let (before, code, behind) = choose|before: Seq<char>, code: Seq<char>, behind: Seq<char>|
            {
                &&& src@ == #[trigger] (before + code + behind)
                &&& span.lo == encode_utf8(before).len()
                &&& span.hi == span.lo + encode_utf8(code).len()
            };
        lemma_parts_are_cut(before, code, behind, span);
        let placed = span.moved(offset as int);
        if forall|j: int|
            0 <= j < files.len() ==> !lies_in(
                #[trigger] files[j],
                span.lo + offset,
                span.hi + offset,
            ) {
            law_no_file_is_made_up(files, placed);
        }
    }
}

// Invocations.

/// What was built of a text counts where nothing is left behind it, and as it is.
pub proof fn law_whole_texts_are_accepted(
    built: Option<Macro>,
    left: &str,
    parsed: Result<Macro, MacroError>,
)
    requires
        call_ensures(expect_whole, (built, left), parsed),
    ensures
        built is None ==> parsed matches Err(MacroError::NotParsed),
        built is Some && left@.len() == 0 ==> parsed == Ok::<Macro, MacroError>(built->0),
        built is Some && left@.len() > 0 ==> (parsed matches Err(MacroError::Trailing(rest))
            && rest@ == left@),
{
}

/// A text is parsed as what `built_macro` finds at its start: a closure with its signature and
/// its body, or a snippet with its code. It must find something, and nothing but white space and
/// comments may be left behind it.
pub proof fn law_invocations_are_parsed(text: &str, parsed: Result<Macro, MacroError>)
    requires
        plain_byte_literals(text@),
        call_ensures(parse_macro, (text,), parsed),
    ensures
        built_macro(text@) is None ==> parsed matches Err(MacroError::NotParsed),
        built_macro(text@) matches Some((found, code, rest)) ==> {
            let left = without_leading_space(rest);
            &&& left.len() > 0 ==> (parsed matches Err(MacroError::Trailing(shown)) && shown@ == left)
            &&& left.len() == 0 && found is Some ==> (parsed matches Ok(Macro::Closure(closure))
                && closure.sig@ == found->0 && closure.body@ == code)
            &&& left.len() == 0 && found is None ==> (parsed matches Ok(Macro::Lit(snippet))
                && snippet@ == code)
        },
{
}

/// Nothing is collected at first, and the sources are those that were given.
pub proof fn law_nothing_is_collected_at_first<'a>(sm: &'a SourceMap, handle: Handle<'a>)
    requires
        call_ensures(Handle::new, (sm,), handle),
    ensures
        handle.closures.len() == 0,
        handle.snippets@.len() == 0,
        handle.sm == sm,
{
    assert(handle@.closures.len() == handle.closures.len());
}

/// A closure is collected whatever its signature is, behind the others, with its body as
/// `extract_with_span` leaves it; where that refuses the body, nothing is collected.
pub proof fn law_closures_are_collected<'a>(
    handle: &mut Handle<'a>,
    closure: Closure,
    src: &str,
    offset: usize,
    done: Result<(), MacroError>,
    body: &mut Spanned,
    sm: &'a SourceMap,
    taken: Result<(), MacroError>,
)
    requires
        old(handle).sm == sm,
        old(body)@ == closure.body@,
        call_ensures(extract_with_span, (body, src, offset, sm), taken),
        call_ensures(Handle::<'a>::record, (handle, Macro::Closure(closure), src, offset), done),
    ensures
        done is Ok <==> taken is Ok,
        done is Ok ==> {
            &&& final(handle).closures.len() == old(handle).closures.len() + 1
            &&& final(handle).closures@.last().sig@ == closure.sig@
            &&& final(handle).closures@.last().body@ == final(body)@
            &&& forall|i: int|
                0 <= i < old(handle).closures.len() ==> (#[trigger] final(handle).closures@[i])@
                    == old(handle).closures@[i]@
        },
        done is Err ==> done->Err_0@ == taken->Err_0@ && final(handle)@ == old(handle)@,
        final(handle).snippets@ == old(handle).snippets@,
        final(handle).sm == old(handle).sm,
{
    assert(final(handle)@.closures.len() == final(handle).closures@.len());
    assert(old(handle)@.closures.len() == old(handle).closures@.len());
    if done is Ok {
        assert(final(handle)@.closures.last() == final(handle).closures@.last()@);
        assert forall|i: int| 0 <= i < old(handle).closures.len() implies (
        #[trigger] final(handle).closures@[i])@ == old(handle).closures@[i]@ by {
            assert(final(handle)@.closures[i] == final(handle).closures@[i]@);
            assert(old(handle)@.closures[i] == old(handle).closures@[i]@);
        }
    }
}

/// A snippet is collected on a new line behind the others, as `extract_with_span` leaves it;
/// where that refuses it, nothing is collected.
pub proof fn law_snippets_are_collected<'a>(
    handle: &mut Handle<'a>,
    snippet: Spanned,
    src: &str,
    offset: usize,
    done: Result<(), MacroError>,
    code: &mut Spanned,
    sm: &'a SourceMap,
    taken: Result<(), MacroError>,
)
    requires
        old(handle).sm == sm,
        old(code)@ == snippet@,
        call_ensures(extract_with_span, (code, src, offset, sm), taken),
        call_ensures(Handle::<'a>::record, (handle, Macro::Lit(snippet), src, offset), done),
    ensures
        done is Ok <==> taken is Ok,
        done is Ok ==> final(handle).snippets@ == old(handle).snippets@.push('\n')
            + final(code).node@,
        done is Err ==> done->Err_0@ == taken->Err_0@ && final(handle)@ == old(handle)@,
        final(handle)@.closures == old(handle)@.closures,
        final(handle).sm == old(handle).sm,
{
    reveal_strlit("\n");
}

/// Whether an invocation is one of `cpp!`: that is all of its path.
pub open spec fn is_cpp(mac: Mac) -> bool {
    mac.path.len() == 1 && mac.path[0]@ == "cpp"@
}

/// The span from the first token of an invocation to the last.
pub open spec fn tokens_of(mac: Mac) -> Span {
    Span { lo: mac.tts[0].lo, hi: mac.tts[mac.tts.len() - 1].hi }
}

/// An invocation of another macro than `cpp!` is passed over. One of `cpp!` is taken in or
/// refused: one that is taken in adds a closure or a snippet, and one that is refused nothing.
pub proof fn law_cpp_alone_is_taken_in<'a>(
    handle: &mut Handle<'a>,
    mac: Mac,
    done: Result<(), MacroError>,
)
    requires
        call_ensures(Handle::<'a>::visit_mac, (handle, &mac), done),
    ensures
        !is_cpp(mac) ==> done is Ok && final(handle)@ == old(handle)@,
        is_cpp(mac) && done is Ok ==> {
            ||| final(handle).closures.len() == old(handle).closures.len() + 1
                && final(handle).snippets@ == old(handle).snippets@
            ||| final(handle).closures.len() == old(handle).closures.len()
                && final(handle).snippets@.len() > old(handle).snippets@.len()
        },
        done is Err ==> is_cpp(mac) && final(handle)@ == old(handle)@,
        final(handle).sm == old(handle).sm,
{
    reveal_strlit("\n");
    lemma_path(mac);
    assert(final(handle)@.closures.len() == final(handle).closures@.len());
    assert(old(handle)@.closures.len() == old(handle).closures@.len());
}

proof fn lemma_path(mac: Mac)
    ensures
        names_cpp(texts(mac.path@)) == is_cpp(mac),
{
    assert(texts(mac.path@).len() == mac.path.len());
    if mac.path.len() == 1 {
        assert(texts(mac.path@)[0] == mac.path[0]@);
    }
}

/// An invocation of `cpp!` is refused where it has no tokens, or where no file holds them all.
pub proof fn law_tokens_must_be_found<'a>(
    handle: &mut Handle<'a>,
    mac: Mac,
    done: Result<(), MacroError>,
)
    requires
        is_cpp(mac),
        call_ensures(Handle::<'a>::visit_mac, (handle, &mac), done),
    ensures
        mac.tts.len() == 0 <==> done matches Err(MacroError::NoTokens),
        mac.tts.len() > 0 ==> (text_of(source_files(*old(handle).sm), tokens_of(mac)) is None
            <==> done matches Err(MacroError::NoSource(_))),
{
    lemma_path(mac);
    assert(mac.tts.len() > 0 ==> whole_span(mac.tts@) == tokens_of(mac));
    let files = source_files(*old(handle).sm);
    match text_of(files, tokens_of(mac)) {
        Some(text) => match parsed_macro(text) {
            Ok(parsed) => lemma_recorded(files, parsed, text, tokens_of(mac).lo as int),
            Err(_) => {},
        },
        None => {},
    }
}

/// A parsed invocation is refused for its body alone.
proof fn lemma_recorded(files: Seq<SourceFile>, parsed: MacroView, text: Seq<char>, offset: int)
    ensures
        recorded(files, parsed, text, offset) is Skipped == false,
        recorded(files, parsed, text, offset) matches Visit::Failed(failure) ==> failure
            == Failure::BadBody || failure == Failure::NoLocation,
{
}

/// The text of the tokens of an invocation of `cpp!` is parsed by `parse_macro`, and what that
/// returns is taken in by `record`: an invocation comes to what these two come to.
pub proof fn law_visits_parse_and_record<'a>(
    handle: &mut Handle<'a>,
    mac: Mac,
    done: Result<(), MacroError>,
    src: &str,
    parsed: Result<Macro, MacroError>,
    other: &mut Handle<'a>,
    taken: Result<(), MacroError>,
)
    requires
        is_cpp(mac),
        mac.tts.len() > 0,
        text_of(source_files(*old(handle).sm), tokens_of(mac)) == Some(src@),
        old(other)@ == old(handle)@,
        old(other).sm == old(handle).sm,
        call_ensures(Handle::<'a>::visit_mac, (handle, &mac), done),
        call_ensures(parse_macro, (src,), parsed),
        parsed is Ok ==> call_ensures(
            Handle::<'a>::record,
            (other, parsed->Ok_0, src, tokens_of(mac).lo),
            taken,
        ),
    ensures
        parsed is Err ==> done is Err && done->Err_0@ == parsed->Err_0@ && final(handle)@ == old(
            handle,
        )@,
        parsed is Ok ==> final(handle)@ == final(other)@ && (done is Ok <==> taken is Ok),
        parsed is Ok && taken is Err ==> done->Err_0@ == taken->Err_0@,
{
    lemma_path(mac);
    assert(whole_span(mac.tts@) == tokens_of(mac));
}

/// Whenever the text of an invocation of `cpp!` parses as a closure, taking it in lengthens the
/// closures by one with the parsed signature, whatever that is.
pub proof fn law_every_closure_is_taken_in<'a>(
    handle: &mut Handle<'a>,
    mac: Mac,
    done: Result<(), MacroError>,
    src: &str,
    closure: Closure,
)
    requires
        is_cpp(mac),
        mac.tts.len() > 0,
        text_of(source_files(*old(handle).sm), tokens_of(mac)) == Some(src@),
        call_ensures(Handle::<'a>::visit_mac, (handle, &mac), done),
        call_ensures(parse_macro, (src,), Ok::<Macro, MacroError>(Macro::Closure(closure))),
    ensures
        done is Ok ==> {
            &&& final(handle).closures.len() == old(handle).closures.len() + 1
            &&& final(handle).closures@.last().sig@ == closure.sig@
            &&& final(handle).snippets@ == old(handle).snippets@
        },
        done is Err ==> done->Err_0 is BadBody || done->Err_0 is NoLocation,
{
    lemma_path(mac);
    assert(whole_span(mac.tts@) == tokens_of(mac));
    let files = source_files(*old(handle).sm);
    lemma_recorded(files, MacroView::Closure(closure@), src@, tokens_of(mac).lo as int);
    assert(final(handle)@.closures.len() == final(handle).closures@.len());
    assert(old(handle)@.closures.len() == old(handle).closures@.len());
    if done is Ok {
        assert(final(handle)@.closures.last() == final(handle).closures@.last()@);
    }
}

/// An invocation is taken in with a test first just as without, unless the test finds a byte
/// literal in the way: then nothing is taken in.
pub proof fn law_tested_visits_are_visits<'a>(
    handle: &mut Handle<'a>,
    mac: Mac,
    tried: Option<Result<(), MacroError>>,
    other: &mut Handle<'a>,
    done: Result<(), MacroError>,
)
    requires
        old(other)@ == old(handle)@,
        old(other).sm == old(handle).sm,
        call_ensures(Handle::<'a>::try_visit_mac, (handle, &mac), tried),
        call_ensures(Handle::<'a>::visit_mac, (other, &mac), done),
    ensures
        tried is None <==> is_cpp(mac) && mac.tts.len() > 0 && (text_of(
            source_files(*old(handle).sm),
            tokens_of(mac),
        ) matches Some(text) && !plain_byte_literals(text)),
        tried is None ==> final(handle)@ == old(handle)@,
        tried matches Some(result) ==> {
            &&& final(handle)@ == final(other)@
            &&& result is Ok <==> done is Ok
            &&& result is Err ==> result->Err_0@ == done->Err_0@
        },
{
    lemma_path(mac);
    assert(mac.tts.len() > 0 ==> whole_span(mac.tts@) == tokens_of(mac));
}

/// A byte literal of a character beyond ASCII at the start of the code stands in the way, and
/// where nothing looks like one nothing does.
pub proof fn law_odd_bytes_are_found(text: &str, plain: bool)
    requires
        call_ensures(has_plain_byte_literals, (text,), plain),
    ensures
        (forall|at: int|
            0 <= at < text@.len() - 2 && #[trigger] text@[at] == 'b' && text@[at + 1] == '\'' ==> (
            text@[at + 2] as u32) < 128) ==> plain,
        text@.len() > 4 && text@[0] == '{' && text@[1] == '{' && text@[2] == 'b' && text@[3] == '\''
            && text@[4] as u32 >= 128 ==> !plain,
{
    if !plain {
        law_only_odd_bytes_stand_in_the_way(text@);
        let at = choose|at: int| odd_byte(text@, at);
        assert(text@[at] == 'b');
    }
    if text@.len() > 4 && text@[0] == '{' && text@[1] == '{' && odd_byte(text@, 2) {
        assert(space_end(text@, 0) == Some(0int));
        assert(space_end(text@, 1) == Some(1int));
        assert(space_end(text@, 2) == Some(2int));
        assert(!plain_from(text@, 2, Part::Code, 0));
    }
}

/// Whether nothing from this position on looks like a byte literal of a character beyond ASCII.
pub open spec fn holds_no_odd_byte(text: Seq<char>, from: int) -> bool {
    forall|at: int|
        from <= at < text.len() - 2 && #[trigger] text[at] == 'b' && text[at + 1] == '\'' ==> (
        text[at + 2] as u32) < 128
}

proof fn lemma_no_odd_byte(text: Seq<char>, from: int)
    requires
        0 <= from,
        holds_no_odd_byte(text, from),
    ensures
        plain_rest(text, from),
{
    assert forall|at: int| from <= at implies !#[trigger] odd_byte(text, at) by {
        if odd_byte(text, at) {
            assert(text[at] == 'b');
        }
    }
}

/// What a comment holds that ends with its line never stands in the way.
pub proof fn law_line_comments_may_hold_anything(
    comment: Seq<char>,
    text: &str,
    behind: int,
    plain: bool,
)
    requires
        comment.len() > 0,
        comment[0] != '/' && comment[0] != '!',
        !comment.contains('\n'),
        behind == comment.len() + 5,
        seq!['{', '{', '/', '/'].is_prefix_of(text@),
        behind < text@.len(),
        text@.subrange(4, behind - 1) == comment,
        text@[behind - 1] == '\n',
        is_letter(text@[behind]),
        holds_no_odd_byte(text@, behind),
        call_ensures(has_plain_byte_literals, (text,), plain),
    ensures
        plain,
{
    let t = text@;
    assert(t[0] == '{' && t[1] == '{' && t[2] == '/' && t[3] == '/') by {
        let head = seq!['{', '{', '/', '/'];
        assert(t[0] == head[0] && t[1] == head[1] && t[2] == head[2] && t[3] == head[3]);
    }
    assert(t[4] == comment[0]) by {
        assert(t.subrange(4, behind - 1)[0] == comment[0]);
    }
    assert forall|i: int| 2 <= i < behind - 1 implies t[i] != '\n' by {
        if i >= 4 {
            assert(t.subrange(4, behind - 1)[i - 4] == comment[i - 4]);
        }
    }
    lemma_found(t, '\n', 2, behind - 1);
    assert(space_end(t, behind) == Some(behind));
    assert(space_end(t, 2) == Some(behind));
    assert(space_end(t, 0) == Some(0int));
    assert(space_end(t, 1) == Some(1int));
    lemma_no_odd_byte(t, behind);
    lemma_plain_rest(t, behind, Part::Code, 0);
    assert(plain_from(t, 2, Part::Code, 0) == plain_from(t, behind, Part::Code, 0));
    assert(plain_from(t, 1, Part::Header, 0) == plain_from(t, 2, Part::Code, 0));
}

proof fn lemma_found(text: Seq<char>, c: char, from: int, at: int)
    requires
        0 <= from <= at < text.len(),
        text[at] == c,
        forall|i: int| from <= i < at ==> text[i] != c,
    ensures
        find(text, c, from) == Some(at),
    decreases at - from,
{
    if from < at {
        lemma_found(text, c, from + 1, at);
    }
}

/// What a string literal holds never stands in the way.
pub proof fn law_strings_may_hold_anything(
    string: Seq<char>,
    text: &str,
    behind: int,
    plain: bool,
)
    requires
        !string.contains('"') && !string.contains('\\'),
        behind == string.len() + 4,
        seq!['{', '{', '"'].is_prefix_of(text@),
        behind <= text@.len(),
        text@.subrange(3, behind - 1) == string,
        text@[behind - 1] == '"',
        holds_no_odd_byte(text@, behind),
        call_ensures(has_plain_byte_literals, (text,), plain),
    ensures
        plain,
{
    let t = text@;
    assert(t[0] == '{' && t[1] == '{' && t[2] == '"') by {
        let head = seq!['{', '{', '"'];
        assert(t[0] == head[0] && t[1] == head[1] && t[2] == head[2]);
    }
    assert forall|i: int| 3 <= i < behind - 1 implies t[i] != '"' && t[i] != '\\' by {
        assert(t.subrange(3, behind - 1)[i - 3] == string[i - 3]);
    }
    lemma_string_found(t, 3, behind - 1);
    assert(space_end(t, 0) == Some(0int));
    assert(space_end(t, 1) == Some(1int));
    assert(space_end(t, 2) == Some(2int));
    lemma_no_odd_byte(t, behind);
    lemma_plain_rest(t, behind, Part::Code, 0);
    assert(plain_from(t, 2, Part::Code, 0) == plain_from(t, behind, Part::Code, 0));
    assert(plain_from(t, 1, Part::Header, 0) == plain_from(t, 2, Part::Code, 0));
}

proof fn lemma_string_found(text: Seq<char>, from: int, at: int)
    requires
        0 <= from <= at < text.len(),
        text[at] == '"',
        forall|i: int| from <= i < at ==> text[i] != '"' && text[i] != '\\',
    ensures
        string_end(text, from) == Some(at + 1),
    decreases at - from,
{
    if from < at {
        lemma_string_found(text, from + 1, at);
    }
}

/// Blanks alone are left out as a whole, and a text that starts with neither a blank nor a slash
/// stays as it is.
pub proof fn law_leading_space_is_left_out(text: Seq<char>)
    ensures
        (forall|i: int| 0 <= i < text.len() ==> #[trigger] text[i] == ' ' || text[i] == '\n')
            ==> without_leading_space(text).len() == 0,
        text.len() > 0 && '!' <= text[0] <= '~' && text[0] != '/' ==> without_leading_space(text)
            == text,
{
    if forall|i: int| 0 <= i < text.len() ==> #[trigger] text[i] == ' ' || text[i] == '\n' {
        lemma_blanks_end(text, 0);
    }
    if text.len() > 0 && '!' <= text[0] <= '~' && text[0] != '/' {
        assert(text.skip(0) == text);
    }
}

proof fn lemma_blanks_end(text: Seq<char>, at: int)
    requires
        0 <= at <= text.len(),
        forall|i: int| 0 <= i < text.len() ==> #[trigger] text[i] == ' ' || text[i] == '\n',
    ensures
        space_end(text, at) == Some(text.len() as int),
    decreases text.len() - at,
{
    if at < text.len() {
        lemma_blanks_end(text, at + 1);
    }
}

}
