//! What holds of the library as a whole.

use crate::artifacts::Artifact;
use crate::codegen::{
    closure_name, closures_code, cpp_lib, function, is_closure_name, params, sizes_array,
    table_entries, table_entry, type_sizes, INTERNAL_CPP_STRUCTS, NAME_PREFIX, SIZES_SCRIPT_MAIN,
};
use crate::config::{ConfigView, Input};
use crate::handle::{
    cut, cuttable, extracted, located, names_cpp, set_apart, visited, whole_span, HandleView, Visit,
};
use crate::lexing::{
    at_is, lemma_plain_rest, lemma_space_end, odd_byte, plain_byte_literals, plain_from, space_end,
    string_end, Part,
};
use crate::parsing::Failure;
use crate::sources::{
    column_after, file_index, file_of, laid_out, lemma_file_index, line_after, text_of, SourceFile,
    Span,
};
use crate::steps::{
    failure_of, next, parse_warnings, ran, sizes_args, ActionView, EventView, Step,
};
use crate::syntax::{ClosureView, SigView, SpannedView};
use crate::text::{
    after_first_line, decimal, digit, first_line, joined, lemma_line_end, line_end, lines, lossy,
    warnings, WARNING_PREFIX,
};
use std::path::PathBuf;
use vstd::prelude::*;
use vstd::utf8::*;

verus! {

/// A number in decimal is made of digits.
proof fn lemma_decimal_digits(n: nat)
    ensures
        decimal(n).len() > 0,
        forall|i: int| 0 <= i < decimal(n).len() ==> '0' <= #[trigger] decimal(n)[i] <= '9',
    decreases n,
{
    if n >= 10 {
        lemma_decimal_digits(n / 10);
    }
}

/// Different numbers differ in decimal.
pub proof fn law_decimal_is_injective(a: nat, b: nat)
    requires
        decimal(a) == decimal(b),
    ensures
        a == b,
    decreases a,
{
    lemma_decimal_digits(a / 10);
    lemma_decimal_digits(b / 10);
    assert(decimal(a).last() == digit(a % 10));
    assert(decimal(b).last() == digit(b % 10));
    if a >= 10 && b >= 10 {
        assert(decimal(a).drop_last() == decimal(a / 10));
        assert(decimal(b).drop_last() == decimal(b / 10));
        law_decimal_is_injective(a / 10, b / 10);
    }
}

/// Closures whose signatures hash differently get generated functions of different names.
pub proof fn law_names_tell_hashes_apart(a: u64, b: u64)
    requires
        closure_name(a) == closure_name(b),
    ensures
        a == b,
{
    assert(closure_name(a).skip(NAME_PREFIX@.len() as int) == decimal(a as nat));
    assert(closure_name(b).skip(NAME_PREFIX@.len() as int) == decimal(b as nat));
    law_decimal_is_injective(a as nat, b as nat);
}

/// The name of a generated function is an identifier, of C++ and of Rust: it needs no
/// escaping between quotes.
pub proof fn law_names_are_identifiers(name: Seq<char>)
    requires
        is_closure_name(name),
    ensures
        name.len() > 0,
        name[0] == '_',
        forall|i: int|
            0 <= i < name.len() ==> {
                ||| 'a' <= #[trigger] name[i] <= 'z'
                ||| '0' <= name[i] <= '9'
                ||| name[i] == '_'
            },
{
    let hash = choose|hash: u64| name == closure_name(hash);
    reveal_strlit("__cpp_closure_");
    lemma_decimal_digits(hash as nat);
}

/// No warning runs over the end of its line, and each starts as cargo expects it.
pub proof fn law_warnings_are_single_lines(text: Seq<char>)
    ensures
        forall|i: int|
            0 <= i < warnings(text).len() ==> {
                &&& (#[trigger] warnings(text)[i]).len() >= WARNING_PREFIX@.len()
                &&& warnings(text)[i].take(WARNING_PREFIX@.len() as int) == WARNING_PREFIX@
                &&& !warnings(text)[i].contains('\n')
            },
{
    reveal_strlit("cargo:warning=");
    lemma_lines_hold_no_line_feed(text);
    assert forall|i: int| 0 <= i < warnings(text).len() implies {
        &&& (#[trigger] warnings(text)[i]).len() >= WARNING_PREFIX@.len()
        &&& warnings(text)[i].take(WARNING_PREFIX@.len() as int) == WARNING_PREFIX@
        &&& !warnings(text)[i].contains('\n')
    } by {
        let warning = warnings(text)[i];
        let line = lines(text)[i];
        assert(warning == WARNING_PREFIX@ + line);
        assert(warning.take(WARNING_PREFIX@.len() as int) == WARNING_PREFIX@);
        if warning.contains('\n') {
            let at = choose|at: int| 0 <= at < warning.len() && warning[at] == '\n';
            if at >= WARNING_PREFIX@.len() {
                assert(line[at - WARNING_PREFIX@.len()] == '\n');
            }
        }
    }
}

proof fn lemma_lines_hold_no_line_feed(text: Seq<char>)
    ensures
        forall|i: int| 0 <= i < lines(text).len() ==> !(#[trigger] lines(text)[i]).contains('\n'),
    decreases text.len(),
{
    lemma_line_end(text, 0);
    if text.len() > 0 {
        let rest = after_first_line(text);
        lemma_lines_hold_no_line_feed(rest);
        assert forall|i: int| 0 <= i < lines(text).len() implies !(#[trigger] lines(
            text,
        )[i]).contains('\n') by {
            if i > 0 {
                assert(lines(text)[i] == lines(rest)[i - 1]);
            }
        }
    }
}

/// The warnings of a text without carriage returns show all of it: its lines, with line
/// feeds between them, are the text, but for a line feed at its end.
pub proof fn law_lines_make_up_the_text(text: Seq<char>)
    requires
        !text.contains('\r'),
        text.len() > 0,
    ensures
        lines(text).len() > 0,
        text == joined(lines(text), seq!['\n']) || text == joined(lines(text), seq!['\n']).push(
            '\n',
        ),
    decreases text.len(),
{
    lemma_line_end(text, 0);
    let end = line_end(text, 0);
    let rest = after_first_line(text);
    assert(first_line(text) == text.take(end)) by {
        if end > 0 && text[end - 1] == '\r' {
            assert(text.contains('\r'));
        }
    }
    if end < text.len() {
        assert(text == text.take(end).push('\n') + rest);
        if rest.len() > 0 {
            assert(!rest.contains('\r')) by {
                if rest.contains('\r') {
                    let at = choose|at: int| 0 <= at < rest.len() && rest[at] == '\r';
                    assert(text[end + 1 + at] == '\r');
                }
            }
            law_lines_make_up_the_text(rest);
            lemma_joined_front(text.take(end), lines(rest), seq!['\n']);
            assert(lines(text) == seq![text.take(end)] + lines(rest));
            let tail = joined(lines(rest), seq!['\n']);
            assert(joined(lines(text), seq!['\n']) == text.take(end) + seq!['\n'] + tail);
            if rest == tail {
                assert(text == joined(lines(text), seq!['\n']));
            } else {
                assert(text == joined(lines(text), seq!['\n']).push('\n'));
            }
        } else {
            assert(lines(text) == seq![text.take(end)]);
            assert(text == text.take(end).push('\n'));
        }
    } else {
        assert(text.take(end) == text);
        assert(lines(rest) == Seq::<Seq<char>>::empty());
        assert(lines(text) == seq![text]);
    }
}

proof fn lemma_joined_front(first: Seq<char>, parts: Seq<Seq<char>>, sep: Seq<char>)
    requires
        parts.len() > 0,
    ensures
        joined(seq![first] + parts, sep) == first + sep + joined(parts, sep),
    decreases parts.len(),
{
    let all = seq![first] + parts;
    assert(all.last() == parts.last());
    assert(all.drop_last() == seq![first] + parts.drop_last());
    if parts.len() > 1 {
        lemma_joined_front(first, parts.drop_last(), sep);
        assert(joined(all, sep) == first + sep + joined(parts, sep));
    } else {
        reveal_with_fuel(joined, 2);
        assert(all.drop_last() == seq![first]);
        assert(joined(all, sep) == first + sep + joined(parts, sep));
    }
}

/// Only what looks like a byte literal that starts with a character beyond ASCII can keep an
/// invocation from being read.
pub proof fn law_only_odd_bytes_stand_in_the_way(text: Seq<char>)
    requires
        !plain_byte_literals(text),
    ensures
        exists|at: int| odd_byte(text, at),
{
    if !exists|at: int| odd_byte(text, at) {
        lemma_space_end(text, 0);
        match space_end(text, 0) {
            Some(start) => lemma_plain_rest(text, start + 1, Part::Header, 0),
            None => {},
        }
    }
}

/// What stands in the white space and the comments between two tokens never keeps an
/// invocation from being read.
pub proof fn law_comments_are_passed_over(text: Seq<char>, at: int, part: Part, depth: nat)
    requires
        0 <= at < text.len(),
        space_end(text, at) is Some,
    ensures
        plain_from(text, at, part, depth) == plain_from(
            text,
            space_end(text, at)->0,
            part,
            depth,
        ),
{
    lemma_space_end(text, at);
}

/// What stands in a string literal never keeps an invocation from being read.
pub proof fn law_strings_are_passed_over(text: Seq<char>, at: int, part: Part, depth: nat)
    requires
        at_is(text, at, '"'),
        string_end(text, at + 1) is Some,
    ensures
        plain_from(text, at, part, depth) == plain_from(
            text,
            string_end(text, at + 1)->0,
            part,
            depth,
        ),
{
    assert(space_end(text, at) == Some(at));
}

/// An invocation of another macro than `cpp!` leaves what was collected as it is.
pub proof fn law_other_macros_are_passed_over(
    collected: HandleView,
    files: Seq<SourceFile>,
    path: Seq<Seq<char>>,
    tts: Seq<Span>,
)
    requires
        !names_cpp(path),
    ensures
        collected.after(visited(files, path, tts)) == collected,
{
}

/// An invocation leaves what was collected before it in place: it adds behind that, a
/// closure or a snippet and never both.
pub proof fn law_visits_only_add(collected: HandleView, visit: Visit)
    ensures
        collected.closures.is_prefix_of(collected.after(visit).closures),
        collected.snippets.is_prefix_of(collected.after(visit).snippets),
        collected.after(visit).closures == collected.closures || collected.after(visit).snippets
            == collected.snippets,
        collected.after(visit).closures.len() == collected.closures.len() + if visit is Closure {
            1int
        } else {
            0
        },
        collected.after(visit).snippets.len() > collected.snippets.len() <==> visit is Snippet,
{
    reveal_strlit("\n");
}

/// What is collected once all of some invocations have been taken in, in order.
pub open spec fn walked(collected: HandleView, visits: Seq<Visit>) -> HandleView
    decreases visits.len(),
{
    if visits.len() == 0 {
        collected
    } else {
        walked(collected, visits.drop_last()).after(visits.last())
    }
}

/// What is collected from invocations goes behind what was collected before, and is the same
/// whatever that was.
pub proof fn law_walks_only_add(collected: HandleView, visits: Seq<Visit>)
    ensures
        walked(collected, visits).closures == collected.closures + walked(
            HandleView::empty(),
            visits,
        ).closures,
        walked(collected, visits).snippets == collected.snippets + walked(
            HandleView::empty(),
            visits,
        ).snippets,
    decreases visits.len(),
{
    if visits.len() > 0 {
        law_walks_only_add(collected, visits.drop_last());
        let fresh = walked(HandleView::empty(), visits.drop_last());
        assert(walked(collected, visits).closures == collected.closures + fresh.after(
            visits.last(),
        ).closures);
        assert(walked(collected, visits).snippets == collected.snippets + fresh.after(
            visits.last(),
        ).snippets);
    }
}

/// Two walks one after the other collect what one walk over all of their invocations does.
pub proof fn law_walks_go_on(collected: HandleView, first: Seq<Visit>, second: Seq<Visit>)
    ensures
        walked(collected, first + second) == walked(walked(collected, first), second),
    decreases second.len(),
{
    if second.len() == 0 {
        assert(first + second == first);
    } else {
        assert((first + second).drop_last() == first + second.drop_last());
        law_walks_go_on(collected, first, second.drop_last());
    }
}

/// The closures among what some invocations come to, in order.
pub open spec fn closures_of(visits: Seq<Visit>) -> Seq<ClosureView> {
    visits.filter(|visit: Visit| visit is Closure).map_values(|visit: Visit| visit->Closure_0)
}

/// The snippets among what some invocations come to, in order.
pub open spec fn snippets_of(visits: Seq<Visit>) -> Seq<Seq<char>> {
    visits.filter(|visit: Visit| visit is Snippet).map_values(|visit: Visit| visit->Snippet_0)
}

/// Snippets as one text, each on a new line.
pub open spec fn on_lines(snippets: Seq<Seq<char>>) -> Seq<char>
    decreases snippets.len(),
{
    if snippets.len() == 0 {
        Seq::empty()
    } else {
        on_lines(snippets.drop_last()) + "\n"@ + snippets.last()
    }
}

/// What a walk collects, where nothing was collected before: the closures that its invocations
/// come to, in order, and the snippets, in order and each on a new line.
pub proof fn law_walks_collect_in_order(visits: Seq<Visit>)
    ensures
        walked(HandleView::empty(), visits).closures == closures_of(visits),
        walked(HandleView::empty(), visits).snippets == on_lines(snippets_of(visits)),
    decreases visits.len(),
{
    reveal(Seq::filter);
    if visits.len() > 0 {
        let before = visits.drop_last();
        law_walks_collect_in_order(before);
        match visits.last() {
            Visit::Closure(closure) => {
                assert(closures_of(visits) == closures_of(before).push(closure));
                assert(snippets_of(visits) == snippets_of(before));
            },
            Visit::Snippet(code) => {
                assert(closures_of(visits) == closures_of(before));
                assert(snippets_of(visits) == snippets_of(before).push(code));
                assert(snippets_of(visits).drop_last() == snippets_of(before));
            },
            _ => {
                assert(closures_of(visits) == closures_of(before));
                assert(snippets_of(visits) == snippets_of(before));
            },
        }
    } else {
        assert(closures_of(visits) == Seq::<ClosureView>::empty());
        assert(snippets_of(visits) == Seq::<Seq<char>>::empty());
    }
}

/// How the closures and the snippets of a crate stand among one another makes no difference to
/// what is collected.
pub proof fn law_interleaving_does_not_matter(first: Seq<Visit>, second: Seq<Visit>)
    requires
        closures_of(first) == closures_of(second),
        snippets_of(first) == snippets_of(second),
    ensures
        walked(HandleView::empty(), first) == walked(HandleView::empty(), second),
{
    law_walks_collect_in_order(first);
    law_walks_collect_in_order(second);
}

/// A closure that an invocation comes to is collected by every walk that the invocation is
/// part of, behind the closures of the invocations before it.
pub proof fn law_no_closure_is_lost(
    collected: HandleView,
    visits: Seq<Visit>,
    i: int,
    closure: ClosureView,
)
    requires
        0 <= i < visits.len(),
        visits[i] == Visit::Closure(closure),
    ensures
        walked(collected, visits.take(i)).closures.push(closure).is_prefix_of(
            walked(collected, visits).closures,
        ),
{
    let upto = visits.take(i + 1);
    assert(upto.drop_last() == visits.take(i));
    assert(visits == upto + visits.skip(i + 1));
    law_walks_go_on(collected, upto, visits.skip(i + 1));
    law_walks_only_add(walked(collected, upto), visits.skip(i + 1));
}

/// A snippet that an invocation comes to is collected by every walk that the invocation is
/// part of, on a new line behind the snippets of the invocations before it.
pub proof fn law_no_snippet_is_lost(
    collected: HandleView,
    visits: Seq<Visit>,
    i: int,
    code: Seq<char>,
)
    requires
        0 <= i < visits.len(),
        visits[i] == Visit::Snippet(code),
    ensures
        stands_behind(
            walked(collected, visits).snippets,
            walked(collected, visits.take(i)).snippets + "\n"@,
            code,
        ),
{
    let upto = visits.take(i + 1);
    assert(upto.drop_last() == visits.take(i));
    assert(visits == upto + visits.skip(i + 1));
    law_walks_go_on(collected, upto, visits.skip(i + 1));
    law_walks_only_add(walked(collected, upto), visits.skip(i + 1));
}

/// Where the files are laid out one behind the other, one that holds a span is the one
/// that is found for it.
pub proof fn law_files_do_not_overlap(files: Seq<SourceFile>, span: Span, i: int)
    requires
        laid_out(files),
        0 <= i < files.len(),
        files[i].holds(span),
    ensures
        file_of(files, span) == Some(files[i]),
{
    lemma_file_index(files, span, 0);
    let found = file_index(files, span, 0);
    assert(found is Some);
    if found->0 < i {
        assert(files[found->0].start + encode_utf8(files[found->0].text).len() < files[i].start);
    } else if found->0 > i {
        assert(files[i].start + encode_utf8(files[i].text).len() < files[found->0].start);
    }
}

/// The body of an invocation is found at the place that it was written at: the span that
/// it ends up with covers, in the sources, the very code that was cut out of the
/// invocation, and the directive in front of the code gives the line and the column of
/// that place.
pub proof fn law_bodies_keep_their_place(
    files: Seq<SourceFile>,
    span: Span,
    code: SpannedView,
)
    requires
        laid_out(files),
        file_of(files, span) matches Some(file) && file.splits(span),
        !code.span.is_dummy(),
        cuttable(text_of(files, span)->0, code.span),
    ensures
        ({
            let file = file_of(files, span)->0;
            let text = text_of(files, span)->0;
            let placed = code.span.moved(span.lo as int);
            &&& placed.lo == code.span.lo + span.lo
            &&& placed.hi == code.span.hi + span.lo
            &&& file_of(files, placed) == Some(file)
            &&& text_of(files, placed) == Some(cut(text, code.span))
            &&& extracted(files, code, text, span.lo as int) == Ok::<SpannedView, Failure>(
                SpannedView {
                    node: located(
                        file.path,
                        line_after(file.bytes_before(placed)),
                        column_after(file.bytes_before(placed)),
                        cut(text, code.span),
                    ),
                    span: placed,
                },
            )
        }),
{
    let file = file_of(files, span)->0;
    let text = text_of(files, span)->0;
    let placed = code.span.moved(span.lo as int);
    lemma_text_of_span(files, span);
    lemma_cut_is_inside(text, code.span);
    let i = file_index(files, span, 0)->0;
    law_files_do_not_overlap(files, placed, i);
    assert(file.bytes(placed) == file.bytes(span).subrange(
        code.span.lo as int,
        code.span.hi as int,
    ));
}

/// An invocation that lies in a source file has a body that lies in one.
pub proof fn law_bodies_are_always_found(
    files: Seq<SourceFile>,
    path: Seq<Seq<char>>,
    tts: Seq<Span>,
)
    requires
        set_apart(files, path, tts),
    ensures
        visited(files, path, tts) != Visit::Failed(Failure::NoLocation),
{
    let span = whole_span(tts);
    if names_cpp(path) && tts.len() > 0 && file_of(files, span) is Some {
        let text = text_of(files, span)->0;
        lemma_text_of_span(files, span);
        assert forall|code: SpannedView| extracted(files, code, text, span.lo as int) != Err::<
            SpannedView,
            Failure,
        >(Failure::NoLocation) by {
            if !code.span.is_dummy() && cuttable(text, code.span) {
                lemma_cut_is_inside(text, code.span);
                let placed = code.span.moved(span.lo as int);
                let i = file_index(files, span, 0)->0;
                assert(files[i].holds(placed));
                lemma_file_index(files, placed, 0);
            }
        }
    }
}

/// The text of a span has the bytes of the span.
proof fn lemma_text_of_span(files: Seq<SourceFile>, span: Span)
    requires
        file_of(files, span) matches Some(file) && file.splits(span),
    ensures
        file_of(files, span)->0.holds(span),
        file_index(files, span, 0) matches Some(i) && 0 <= i < files.len() && files[i] == file_of(
            files,
            span,
        )->0,
        encode_utf8(text_of(files, span)->0) == file_of(files, span)->0.bytes(span),
{
    lemma_file_index(files, span, 0);
    let file = file_of(files, span)->0;
    let bytes = encode_utf8(file.text);
    let lo = span.lo - file.start;
    let hi = span.hi - file.start;
    encode_utf8_valid_utf8(file.text);
    valid_utf8_split(bytes, hi);
    let head = bytes.subrange(0, hi);
    if lo == hi {
        is_char_boundary_start_end_of_seq(head);
    } else {
        is_char_boundary_iff_not_is_continuation_byte(bytes, lo);
        is_char_boundary_iff_not_is_continuation_byte(head, lo);
    }
    valid_utf8_split(head, lo);
    assert(head.subrange(lo, head.len() as int) == file.bytes(span));
    decode_utf8_encode_utf8(file.bytes(span));
}

/// A span that can be cut out of a text ends inside it.
proof fn lemma_cut_is_inside(text: Seq<char>, span: Span)
    requires
        cuttable(text, span),
    ensures
        span.lo <= span.hi <= encode_utf8(text).len(),
{
    encode_utf8_valid_utf8(text);
}

/// A closure has a size and an alignment for what it returns and for each of its captures,
/// and a parameter for each of its captures.
pub proof fn law_types_are_counted(sig: SigView)
    ensures
        type_sizes(sig).len() == sig.captures.len() + 1,
        params(sig).len() == sig.captures.len(),
{
}

/// The snippets stand in front of everything that is generated for the closures, which may
/// use what they declare.
pub proof fn law_snippets_come_first(collected: HandleView, names: Seq<Seq<char>>)
    ensures
        (INTERNAL_CPP_STRUCTS@ + collected.snippets + "\n\n"@ + closures_code(
            collected.closures,
            names,
            collected.closures.len(),
        )).is_prefix_of(cpp_lib(collected, names)),
{
    let head = INTERNAL_CPP_STRUCTS@ + collected.snippets + "\n\n"@ + closures_code(
        collected.closures,
        names,
        collected.closures.len(),
    );
    assert(cpp_lib(collected, names).take(head.len() as int) == head);
}

/// Whether `part` stands in `text`, with `before` in front of it.
pub open spec fn stands_behind(text: Seq<char>, before: Seq<char>, part: Seq<char>) -> bool {
    (before + part).is_prefix_of(text)
}

/// Every closure has its array of sizes and its function in the library, behind those of
/// the closures before it, and under the same name its entry in the table, behind theirs.
pub proof fn law_every_closure_is_generated(
    collected: HandleView,
    names: Seq<Seq<char>>,
    i: nat,
)
    requires
        i < collected.closures.len(),
    ensures
        ({
            let name = names[i as int];
            let closure = collected.closures[i as int];
            let lib = cpp_lib(collected, names);
            let head = INTERNAL_CPP_STRUCTS@ + collected.snippets + "\n\n"@;
            let code = closures_code(collected.closures, names, collected.closures.len());
            &&& stands_behind(
                lib,
                head + closures_code(collected.closures, names, i),
                sizes_array(name, closure.sig) + function(name, closure),
            )
            &&& stands_behind(
                lib,
                head + code + "\nrustcpp::Size __cpp_sizes[] = { "@ + table_entries(names, i),
                table_entry(name),
            )
        }),
{
    let n = collected.closures.len();
    let name = names[i as int];
    let closure = collected.closures[i as int];
    let head = INTERNAL_CPP_STRUCTS@ + collected.snippets + "\n\n"@;
    let code = closures_code(collected.closures, names, n);
    let table = head + code + "\nrustcpp::Size __cpp_sizes[] = { "@;
    lemma_closures_are_in_order(collected.closures, names, i, n);
    lemma_prefix_behind(
        head,
        closures_code(collected.closures, names, i) + (sizes_array(name, closure.sig) + function(
            name,
            closure,
        )),
        code,
    );
    lemma_prefix_behind(
        table,
        table_entries(names, i) + table_entry(name),
        table_entries(names, n),
    );
    let lib = cpp_lib(collected, names);
    assert(lib == table + table_entries(names, n) + " { 0 } };\n"@);
    assert((table + table_entries(names, n)).is_prefix_of(lib));
    assert((head + code).is_prefix_of(lib));
    assert(table + (table_entries(names, i) + table_entry(name)) == table + table_entries(names, i)
        + table_entry(name));
    assert(head + (closures_code(collected.closures, names, i) + (sizes_array(name, closure.sig)
        + function(name, closure))) == head + closures_code(collected.closures, names, i) + (
    sizes_array(name, closure.sig) + function(name, closure)));
}

/// What starts with a text still does so behind another.
proof fn lemma_prefix_behind(before: Seq<char>, part: Seq<char>, whole: Seq<char>)
    requires
        part.is_prefix_of(whole),
    ensures
        (before + part).is_prefix_of(before + whole),
{
}

proof fn lemma_closures_are_in_order(
    closures: Seq<ClosureView>,
    names: Seq<Seq<char>>,
    i: nat,
    n: nat,
)
    requires
        i < n,
    ensures
        stands_behind(
            closures_code(closures, names, n),
            closures_code(closures, names, i),
            sizes_array(names[i as int], closures[i as int].sig) + function(
                names[i as int],
                closures[i as int],
            ),
        ),
        stands_behind(table_entries(names, n), table_entries(names, i), table_entry(names[i as int])),
    decreases n,
{
    if i + 1 < n {
        lemma_closures_are_in_order(closures, names, i, (n - 1) as nat);
    }
}

/// How many steps of a build lie behind it.
pub open spec fn rank(step: Step) -> nat {
    match step {
        Step::Cleaning(_) => 0,
        Step::Removing(_) => 1,
        Step::Creating(_) => 2,
        Step::Parsing => 3,
        Step::WritingLibrary => 4,
        Step::Compiling => 5,
        Step::WritingSizes => 6,
        Step::RunningCompiler => 7,
        Step::Finished => 8,
    }
}

/// A build never takes a step back or stays at one, and so it ends.
pub proof fn law_builds_end(config: ConfigView, step: Step, event: EventView, lib: Seq<char>)
    ensures
        next(config, step, event, lib) matches Some((_, following, _)) ==> rank(step) < rank(
            following,
        ),
        step is Finished ==> next(config, step, event, lib) is None,
{
}

/// A build is finished when, and only when, it asks for nothing but to print and to panic.
pub proof fn law_builds_finish_once(
    config: ConfigView,
    step: Step,
    event: EventView,
    lib: Seq<char>,
)
    ensures
        next(config, step, event, lib) matches Some((_, following, action)) ==> (following is Finished
            <==> action is Finish),
{
}

/// A build changes nothing of its configuration but to add the source of the library to
/// the files, once that is written.
pub proof fn law_builds_add_one_file(
    config: ConfigView,
    step: Step,
    event: EventView,
    lib: Seq<char>,
)
    ensures
        next(config, step, event, lib) matches Some((after, _, action)) ==> match event {
            EventView::LibraryWritten => after == (ConfigView {
                files: config.files.push(Input::Generated(Artifact::LibrarySource)),
                ..config
            }) && action == ActionView::CompileLibrary,
            _ => after == config,
        },
{
}

/// A crate that cannot be parsed is no failure of the build, which warns of it, does not
/// panic, and leaves the error to the compiler.
pub proof fn law_parse_errors_are_left_to_rustc(
    config: ConfigView,
    reason: Seq<char>,
    lib: Seq<char>,
)
    ensures
        next(config, Step::Parsing, EventView::ParseFailed(reason), lib) == Some(
            (config, Step::Finished, ActionView::Finish(parse_warnings(reason), None)),
        ),
{
}

/// A build ends without a panic only where its crate could not be parsed or the compiler
/// succeeded at last. Every other end of it panics.
pub proof fn law_only_success_is_quiet(
    config: ConfigView,
    step: Step,
    event: EventView,
    lib: Seq<char>,
)
    ensures
        next(config, step, event, lib) matches Some((_, _, ActionView::Finish(_, failure))) ==> (
        failure is None <==> (event is ParseFailed || event matches EventView::CompilerRan(
            _,
            _,
            true,
        ))),
{
}

/// A step that acts on the files of the build, or runs the compiler, ends the build where its
/// action cannot be done: the panic gives what could not be done and the error.
pub proof fn law_failures_are_reported(
    config: ConfigView,
    step: Step,
    error: Seq<char>,
    lib: Seq<char>,
)
    requires
        failure_of(step) is Some,
    ensures
        next(config, step, EventView::Failed(error), lib) == Some(
            (
                config,
                Step::Finished,
                ActionView::Finish(Seq::empty(), Some(failure_of(step)->0 + ": "@ + error)),
            ),
        ),
{
}

/// The output directory: the texts in the directory of what is generated, where that is there,
/// and everything else.
pub struct OutDir {
    pub generated: Option<Map<Artifact, Seq<char>>>,
    pub others: Map<Seq<char>, Seq<u8>>,
}

/// The output directory once an action has been done, or nothing where it cannot be done: only
/// a directory that is there can be removed or written to, and only one that is not be created.
pub open spec fn performed(dir: OutDir, action: ActionView) -> Option<OutDir> {
    match (action, dir.generated) {
        (ActionView::RemoveDirectory, Some(_)) => Some(OutDir { generated: None, ..dir }),
        (ActionView::CreateDirectory, None) => Some(
            OutDir { generated: Some(Map::empty()), ..dir },
        ),
        (ActionView::WriteFile(file, text), Some(texts)) => Some(
            OutDir { generated: Some(texts.insert(file, text)), ..dir },
        ),
        _ => None,
    }
}

/// The output directory once a build has made way for what it generates.
pub open spec fn cleaned(
    dir: OutDir,
    config: ConfigView,
    root: PathBuf,
    lib: Seq<char>,
) -> Option<OutDir> {
    let checked = EventView::DirectoryChecked(dir.generated is Some);
    match next(config, Step::Cleaning(root), checked, lib) {
        Some((config, Step::Removing(root), remove)) => match (
            performed(dir, remove),
            next(config, Step::Removing(root), EventView::DirectoryRemoved, lib),
        ) {
            (Some(dir), Some((_, _, create))) => performed(dir, create),
            _ => None,
        },
        Some((_, _, create)) => performed(dir, create),
        None => None,
    }
}

/// A build can always make way for what it generates, and starts with an empty directory for it,
/// whatever an earlier one has left: to do so once more changes nothing. Nothing else in the
/// output directory is touched.
pub proof fn law_cleaning_leaves_an_empty_directory(
    dir: OutDir,
    config: ConfigView,
    root: PathBuf,
    lib: Seq<char>,
)
    ensures
        cleaned(dir, config, root, lib) == Some(
            OutDir { generated: Some(Map::<Artifact, Seq<char>>::empty()), ..dir },
        ),
        cleaned(cleaned(dir, config, root, lib)->0, config, root, lib) == cleaned(
            dir,
            config,
            root,
            lib,
        ),
{
}

/// A file that is written holds the new text and nothing of what it held before, and no other
/// file is touched.
pub proof fn law_files_are_replaced(
    dir: OutDir,
    file: Artifact,
    text: Seq<char>,
    before: Seq<char>,
    other: Artifact,
)
    requires
        dir.generated is Some,
        other != file,
    ensures
        ({
            let written = performed(dir, ActionView::WriteFile(file, text));
            let held = OutDir { generated: Some(dir.generated->0.insert(file, before)), ..dir };
            &&& written is Some
            &&& written->0.generated->0[file] == text
            &&& written->0.generated->0.dom().contains(other) == dir.generated->0.dom().contains(
                other,
            )
            &&& written->0.generated->0[other] == dir.generated->0[other]
            &&& written->0.others == dir.others
            &&& performed(held, ActionView::WriteFile(file, text)) == written
        }),
{
    assert(dir.generated->0.insert(file, before).insert(file, text) == dir.generated->0.insert(
        file,
        text,
    ));
}

/// What a build does on a sequence of events: the configuration and the step that it comes
/// to, and the actions on the way.
pub open spec fn run(
    config: ConfigView,
    step: Step,
    events: Seq<EventView>,
    lib: Seq<char>,
) -> Option<(ConfigView, Step, Seq<ActionView>)>
    decreases events.len(),
{
    if events.len() == 0 {
        Some((config, step, Seq::empty()))
    } else {
        match run(config, step, events.drop_last(), lib) {
            None => None,
            Some((config, step, actions)) => match next(config, step, events.last(), lib) {
                None => None,
                Some((config, step, action)) => Some((config, step, actions.push(action))),
            },
        }
    }
}

/// A build on which everything succeeds: it makes way for a new directory, parses the
/// crate, writes the library and compiles it with the files of the configuration, and then
/// writes the program that prints the sizes and has it made.
pub proof fn law_successful_build(
    config: ConfigView,
    root: PathBuf,
    exists: bool,
    collected: HandleView,
    lib: Seq<char>,
    target: Seq<char>,
    out: Seq<u8>,
    err: Seq<u8>,
)
    ensures
        ({
            let cleaned = if exists {
                seq![EventView::DirectoryChecked(true), EventView::DirectoryRemoved]
            } else {
                seq![EventView::DirectoryChecked(false)]
            };
            let cleaning = if exists {
                seq![ActionView::RemoveDirectory, ActionView::CreateDirectory]
            } else {
                seq![ActionView::CreateDirectory]
            };
            run(
                config,
                Step::Cleaning(root),
                cleaned + seq![
                    EventView::DirectoryCreated,
                    EventView::CrateParsed(collected),
                    EventView::LibraryWritten,
                    EventView::LibraryCompiled,
                    EventView::SizesWritten(target),
                    EventView::CompilerRan(out, err, true),
                ],
                lib,
            ) == Some(
                (
                    ConfigView {
                        files: config.files.push(Input::Generated(Artifact::LibrarySource)),
                        ..config
                    },
                    Step::Finished,
                    cleaning + seq![
                        ActionView::ParseCrate(root),
                        ActionView::WriteFile(Artifact::LibrarySource, lib),
                        ActionView::CompileLibrary,
                        ActionView::WriteFile(
                            Artifact::SizesSource,
                            INTERNAL_CPP_STRUCTS@ + SIZES_SCRIPT_MAIN@,
                        ),
                        ActionView::RunCompiler(sizes_args(target)),
                        ran(lossy(out), lossy(err), true),
                    ],
                ),
            )
        }),
{
    let start = Step::Cleaning(root);
    let none = Seq::<EventView>::empty();
    let checked = none.push(EventView::DirectoryChecked(exists));
    lemma_run_on(config, start, none, EventView::DirectoryChecked(exists), lib);
    lemma_run_on(config, start, checked, EventView::DirectoryRemoved, lib);
    let e0 = if exists {
        checked.push(EventView::DirectoryRemoved)
    } else {
        checked
    };
    let e1 = e0.push(EventView::DirectoryCreated);
    let e2 = e1.push(EventView::CrateParsed(collected));
    let e3 = e2.push(EventView::LibraryWritten);
    let e4 = e3.push(EventView::LibraryCompiled);
    let e5 = e4.push(EventView::SizesWritten(target));
    let e6 = e5.push(EventView::CompilerRan(out, err, true));
    lemma_run_on(config, start, e0, EventView::DirectoryCreated, lib);
    lemma_run_on(config, start, e1, EventView::CrateParsed(collected), lib);
    lemma_run_on(config, start, e2, EventView::LibraryWritten, lib);
    lemma_run_on(config, start, e3, EventView::LibraryCompiled, lib);
    lemma_run_on(config, start, e4, EventView::SizesWritten(target), lib);
    lemma_run_on(config, start, e5, EventView::CompilerRan(out, err, true), lib);
    let cleaned = if exists {
        seq![EventView::DirectoryChecked(true), EventView::DirectoryRemoved]
    } else {
        seq![EventView::DirectoryChecked(false)]
    };
    assert(e6 == cleaned + seq![
        EventView::DirectoryCreated,
        EventView::CrateParsed(collected),
        EventView::LibraryWritten,
        EventView::LibraryCompiled,
        EventView::SizesWritten(target),
        EventView::CompilerRan(out, err, true),
    ]);
    let cleaning = if exists {
        seq![ActionView::RemoveDirectory, ActionView::CreateDirectory]
    } else {
        seq![ActionView::CreateDirectory]
    };
    assert(run(config, start, e0, lib).unwrap().2 == cleaning);
    assert(run(config, start, e6, lib).unwrap().2 == cleaning + seq![
        ActionView::ParseCrate(root),
        ActionView::WriteFile(Artifact::LibrarySource, lib),
        ActionView::CompileLibrary,
        ActionView::WriteFile(Artifact::SizesSource, INTERNAL_CPP_STRUCTS@ + SIZES_SCRIPT_MAIN@),
        ActionView::RunCompiler(sizes_args(target)),
        ran(lossy(out), lossy(err), true),
    ]);
}

/// One event more is one step more.
proof fn lemma_run_on(
    config: ConfigView,
    step: Step,
    events: Seq<EventView>,
    event: EventView,
    lib: Seq<char>,
)
    ensures
        run(config, step, events.push(event), lib) == match run(config, step, events, lib) {
            None => None,
            Some((config, step, actions)) => match next(config, step, event, lib) {
                None => None,
                Some((config, step, action)) => Some((config, step, actions.push(action))),
            },
        },
{
    assert(events.push(event).drop_last() == events);
}

}
