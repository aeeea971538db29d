//! The `cpp!` invocations of a crate, collected as its syntax tree is walked.

use crate::lexing::{has_plain_byte_literals, plain_byte_literals};
use crate::parsing::{parse_macro, parsed_macro, Failure, MacroError};
use crate::sources::{
    column_after, file_of, laid_out, lemma_file_index, line_after, locinfo, source_files, source_text,
    text_of, LocInfo, SourceFile, Span,
};
use crate::syntax::{Closure, ClosureView, Mac, Macro, MacroView, Spanned, SpannedView};
use crate::text::{append_blanks, blanks, decimal, decimal_text, texts};
use cpp_synmap::SourceMap;
use vstd::prelude::*;
use vstd::string::*;
use vstd::utf8::*;

verus! {

/// What has been collected from a crate: the closures and the snippets, in the order of
/// the walk.
pub struct Handle<'a> {
    pub closures: Vec<Closure>,
    pub snippets: String,
    pub sm: &'a SourceMap,
}

/// The closures, and the text of the snippets.
pub struct HandleView {
    pub closures: Seq<ClosureView>,
    pub snippets: Seq<char>,
}

impl<'a> View for Handle<'a> {
    type V = HandleView;

    open spec fn view(&self) -> HandleView {
        HandleView {
            closures: self.closures@.map_values(|c: Closure| c@),
            snippets: self.snippets@,
        }
    }
}

/// What an invocation comes to.
pub enum Visit {
    /// It is none of `cpp!`.
    Skipped,
    Failed(Failure),
    Closure(ClosureView),
    Snippet(Seq<char>),
}

impl HandleView {
    /// Nothing collected.
    pub open spec fn empty() -> HandleView {
        HandleView { closures: Seq::empty(), snippets: Seq::empty() }
    }

    /// What is collected once an invocation has been taken in: a closure goes behind the
    /// others, and a snippet, on a new line, behind the others.
    pub open spec fn after(self, visit: Visit) -> HandleView {
        match visit {
            Visit::Skipped | Visit::Failed(_) => self,
            Visit::Closure(closure) => HandleView { closures: self.closures.push(closure), ..self },
            Visit::Snippet(code) => HandleView { snippets: self.snippets + "\n"@ + code, ..self },
        }
    }
}

/// Code as it is handed to the C++ compiler: behind a directive that names its line and
/// its file, and at the column that it was written at.
pub open spec fn located(path: Seq<char>, line: nat, col: nat, code: Seq<char>) -> Seq<char> {
    "#line "@ + decimal(line) + " "@ + path + "\n"@ + blanks(col) + code
}

/// Whether the span can be cut out of the text.
pub open spec fn cuttable(text: Seq<char>, span: Span) -> bool {
    &&& span.lo <= span.hi
    &&& is_char_boundary(encode_utf8(text), span.lo as int)
    &&& is_char_boundary(encode_utf8(text), span.hi as int)
}

/// The part of the text that the span covers.
pub open spec fn cut(text: Seq<char>, span: Span) -> Seq<char> {
    decode_utf8(encode_utf8(text).subrange(span.lo as int, span.hi as int))
}

/// A piece of code from a text that starts at `offset` in the sources, with its layout
/// and its place. Code from a string literal, which has no span, is kept as it is.
pub open spec fn extracted(
    files: Seq<SourceFile>,
    code: SpannedView,
    text: Seq<char>,
    offset: int,
) -> Result<SpannedView, Failure> {
    let span = code.span.moved(offset);
    if code.span.is_dummy() {
        Ok(code)
    } else if !cuttable(text, code.span) {
        Err(Failure::BadBody)
    } else {
        match file_of(files, span) {
            None => Err(Failure::NoLocation),
            Some(file) => {
                let before = file.bytes_before(span);
                let node = located(
                    file.path,
                    line_after(before),
                    column_after(before),
                    cut(text, code.span),
                );
                Ok(SpannedView { node, span })
            },
        }
    }
}

/// The code of a parsed invocation.
pub open spec fn code_of(parsed: MacroView) -> SpannedView {
    match parsed {
        MacroView::Closure(closure) => closure.body,
        MacroView::Lit(code) => code,
    }
}

/// What a parsed invocation comes to, where its text starts at `offset` in the sources.
pub open spec fn recorded(
    files: Seq<SourceFile>,
    parsed: MacroView,
    text: Seq<char>,
    offset: int,
) -> Visit {
    match parsed {
        MacroView::Closure(closure) => match extracted(files, closure.body, text, offset) {
            Ok(body) => Visit::Closure(ClosureView { body, ..closure }),
            Err(failure) => Visit::Failed(failure),
        },
        MacroView::Lit(code) => match extracted(files, code, text, offset) {
            Ok(code) => Visit::Snippet(code.node),
            Err(failure) => Visit::Failed(failure),
        },
    }
}

/// Whether a path names the macro `cpp!`.
pub open spec fn names_cpp(path: Seq<Seq<char>>) -> bool {
    path.len() == 1 && path[0] == "cpp"@
}

/// The span of a sequence of token trees.
pub open spec fn whole_span(tts: Seq<Span>) -> Span {
    Span { lo: tts[0].lo, hi: tts.last().hi }
}

/// What an invocation comes to.
pub open spec fn visited(
    files: Seq<SourceFile>,
    path: Seq<Seq<char>>,
    tts: Seq<Span>,
) -> Visit {
    if !names_cpp(path) {
        Visit::Skipped
    } else if tts.len() == 0 {
        Visit::Failed(Failure::NoTokens)
    } else {
        match text_of(files, whole_span(tts)) {
            None => Visit::Failed(Failure::NoSource),
            Some(text) => match parsed_macro(text) {
                Err(failure) => Visit::Failed(failure),
                Ok(parsed) => recorded(files, parsed, text, whole_span(tts).lo as int),
            },
        }
    }
}

/// Whether the tokens of an invocation of `cpp!` stand between whole characters of the
/// file that holds them.
pub open spec fn set_apart(
    files: Seq<SourceFile>,
    path: Seq<Seq<char>>,
    tts: Seq<Span>,
) -> bool {
    names_cpp(path) && tts.len() > 0 ==> match file_of(files, whole_span(tts)) {
        Some(file) => file.splits(whole_span(tts)),
        None => true,
    }
}

/// Whether no byte literal among the tokens of an invocation of `cpp!` starts with a
/// character beyond ASCII.
pub open spec fn readable(
    files: Seq<SourceFile>,
    path: Seq<Seq<char>>,
    tts: Seq<Span>,
) -> bool {
    names_cpp(path) && tts.len() > 0 ==> match text_of(files, whole_span(tts)) {
        Some(text) => plain_byte_literals(text),
        None => true,
    }
}

/// The code that stands at a place, behind its line directive and at its column.
pub fn locate(loc: &LocInfo, code: &str) -> (node: String)
    ensures
        node@ == located(loc.path@, loc.line as nat, loc.col as nat, code@),
{
    let mut node = "#line ".to_owned();
    let line = decimal_text(loc.line as u64);
    node.append(line.as_str());
    node.append(" ");
    node.append(loc.path.as_str());
    node.append("\n");
    append_blanks(&mut node, loc.col);
    node.append(code);
    node
}

/// Cuts the span out of the text.
fn cut_out(text: &str, span: Span) -> (code: Option<&str>)
    ensures
        match code {
            Some(code) => cuttable(text@, span) && code@ == cut(text@, span),
            None => !cuttable(text@, span),
        },
{
    let ghost bytes = encode_utf8(text@);
    proof {
        encode_utf8_valid_utf8(text@);
    }
    if span.lo <= span.hi && text.is_char_boundary(span.lo) && text.is_char_boundary(span.hi) {
        let (head, _) = text.split_at(span.hi);
        proof {
            lemma_boundary_of_prefix(bytes, span.lo as int, span.hi as int);
        }
        let (_, code) = head.split_at(span.lo);
        proof {
            assert(encode_utf8(code@) == bytes.subrange(span.lo as int, span.hi as int));
            encode_utf8_decode_utf8(code@);
        }
        Some(code)
    } else {
        None
    }
}

/// A character boundary of a text bounds it, and stays one of every longer part that is
/// cut off at another.
proof fn lemma_boundary_of_prefix(bytes: Seq<u8>, lo: int, hi: int)
    requires
        valid_utf8(bytes),
        0 <= lo <= hi,
        is_char_boundary(bytes, lo),
        is_char_boundary(bytes, hi),
    ensures
        hi <= bytes.len(),
        is_char_boundary(bytes.subrange(0, hi), lo),
{
    let head = bytes.subrange(0, hi);
    valid_utf8_split(bytes, hi);
    if lo == hi {
        is_char_boundary_start_end_of_seq(head);
    } else {
        is_char_boundary_iff_not_is_continuation_byte(bytes, lo);
        is_char_boundary_iff_not_is_continuation_byte(head, lo);
    }
}

/// Replaces code from a text that starts at `offset` in the sources by the code with its
/// layout and its place.
pub fn extract_with_span(
    spanned: &mut Spanned,
    src: &str,
    offset: usize,
    sm: &SourceMap,
) -> (done: Result<(), MacroError>)
    requires
        !old(spanned)@.span.is_dummy() ==> offset + encode_utf8(src@).len() <= usize::MAX,
    ensures
        match done {
            Ok(_) => extracted(source_files(*sm), old(spanned)@, src@, offset as int) == Ok::<
                SpannedView,
                Failure,
            >(final(spanned)@),
            Err(error) => {
                &&& *final(spanned) == *old(spanned)
                &&& extracted(source_files(*sm), old(spanned)@, src@, offset as int) == Err::<
                    SpannedView,
                    Failure,
                >(error@)
            },
        },
        done is Ok && !old(spanned)@.span.is_dummy() ==> laid_out(source_files(*sm)),
{
    if spanned.span != Span::dummy() {
        match cut_out(src, spanned.span) {
            None => {
                return Err(MacroError::BadBody);
            },
            Some(code) => {
                proof {
                    encode_utf8_valid_utf8(src@);
                    lemma_boundary_of_prefix(
                        encode_utf8(src@),
                        spanned.span.lo as int,
                        spanned.span.hi as int,
                    );
                }
                let span = Span { lo: spanned.span.lo + offset, hi: spanned.span.hi + offset };
                match locinfo(sm, span) {
                    Err(error) => {
                        return Err(MacroError::NoLocation(error));
                    },
                    Ok(loc) => {
                        spanned.node = locate(&loc, code);
                        spanned.span = span;
                    },
                }
            },
        }
    }
    Ok(())
}

impl<'a> Handle<'a> {
    /// Nothing collected yet, from the crate whose files `sm` holds.
    pub fn new(sm: &'a SourceMap) -> (handle: Handle<'a>)
        ensures
            handle@ == HandleView::empty(),
            handle.sm == sm,
    {
        let handle = Handle { closures: Vec::new(), snippets: String::new(), sm };
        proof {
            assert(handle@.closures == Seq::<ClosureView>::empty());
        }
        handle
    }

    /// Takes in a parsed invocation whose text starts at `offset` in the sources.
    pub fn record(&mut self, parsed: Macro, src: &str, offset: usize) -> (done: Result<
        (),
        MacroError,
    >)
        requires
            !code_of(parsed@).span.is_dummy() ==> offset + encode_utf8(src@).len() <= usize::MAX,
        ensures
            final(self).sm == old(self).sm,
            final(self)@ == old(self)@.after(
                recorded(source_files(*old(self).sm), parsed@, src@, offset as int),
            ),
            match done {
                Ok(_) => !(recorded(
                    source_files(*old(self).sm),
                    parsed@,
                    src@,
                    offset as int,
                ) is Failed),
                Err(error) => recorded(source_files(*old(self).sm), parsed@, src@, offset as int)
                    == Visit::Failed(error@),
            },
    {
        match parsed {
            Macro::Closure(mut closure) => {
                let ghost before = closure@;
                match extract_with_span(&mut closure.body, src, offset, self.sm) {
                    Err(error) => {
                        return Err(error);
                    },
                    Ok(_) => {},
                }
                proof {
                    assert(closure@ == ClosureView { body: closure.body@, ..before });
                }
                let ghost collected = self.closures@;
                self.closures.push(closure);
                proof {
                    assert(self@.closures == collected.map_values(|c: Closure| c@).push(closure@));
                }
            },
            Macro::Lit(mut code) => {
                match extract_with_span(&mut code, src, offset, self.sm) {
                    Err(error) => {
                        return Err(error);
                    },
                    Ok(_) => {},
                }
                self.snippets.append("\n");
                self.snippets.append(code.node.as_str());
            },
        }
        Ok(())
    }

    /// Takes in a macro invocation. One of another macro than `cpp!` is passed over.
    pub fn visit_mac(&mut self, mac: &Mac) -> (done: Result<(), MacroError>)
        requires
            set_apart(source_files(*old(self).sm), texts(mac.path@), mac.tts@),
            readable(source_files(*old(self).sm), texts(mac.path@), mac.tts@),
        ensures
            final(self).sm == old(self).sm,
            final(self)@ == old(self)@.after(
                visited(source_files(*old(self).sm), texts(mac.path@), mac.tts@),
            ),
            match done {
                Ok(_) => !(visited(
                    source_files(*old(self).sm),
                    texts(mac.path@),
                    mac.tts@,
                ) is Failed),
                Err(error) => visited(source_files(*old(self).sm), texts(mac.path@), mac.tts@)
                    == Visit::Failed(error@),
            },
            done is Ok && names_cpp(texts(mac.path@)) ==> laid_out(source_files(*old(self).sm)),
    {
        if mac.path.len() != 1 {
            return Ok(());
        }
        if mac.path[0] == "cpp".to_owned() {
            if mac.tts.len() == 0 {
                return Err(MacroError::NoTokens);
            }
            let span = Span { lo: mac.tts[0].lo, hi: mac.tts[mac.tts.len() - 1].hi };
            match source_text(self.sm, span) {
                Err(error) => Err(MacroError::NoSource(error)),
                Ok(src) => {
                    proof {
                        encode_utf8_decode_utf8(src@);
                        lemma_file_index(source_files(*self.sm), span, 0);
                    }
                    match parse_macro(src) {
                        Err(error) => Err(error),
                        Ok(parsed) => self.record(parsed, src, span.lo),
                    }
                },
            }
        } else {
            Ok(())
        }
    }

    /// Takes in a macro invocation, where no byte literal in it stands in the way. Returns
    /// nothing, and takes nothing in, where one does.
    pub fn try_visit_mac(&mut self, mac: &Mac) -> (done: Option<Result<(), MacroError>>)
        requires
            set_apart(source_files(*old(self).sm), texts(mac.path@), mac.tts@),
        ensures
            final(self).sm == old(self).sm,
            done is Some <==> readable(source_files(*old(self).sm), texts(mac.path@), mac.tts@),
            match done {
                None => final(self)@ == old(self)@,
                Some(_) => final(self)@ == old(self)@.after(
                    visited(source_files(*old(self).sm), texts(mac.path@), mac.tts@),
                ),
            },
            match done {
                None => true,
                Some(Ok(_)) => !(visited(
                    source_files(*old(self).sm),
                    texts(mac.path@),
                    mac.tts@,
                ) is Failed),
                Some(Err(error)) => visited(
                    source_files(*old(self).sm),
                    texts(mac.path@),
                    mac.tts@,
                ) == Visit::Failed(error@),
            },
            done matches Some(Ok(_)) && names_cpp(texts(mac.path@)) ==> laid_out(
                source_files(*old(self).sm),
            ),
    {
        if mac.path.len() == 1 && mac.path[0] == "cpp".to_owned() && mac.tts.len() > 0 {
            let span = Span { lo: mac.tts[0].lo, hi: mac.tts[mac.tts.len() - 1].hi };
            match source_text(self.sm, span) {
                Err(_) => {},
                Ok(src) => {
                    proof {
                        encode_utf8_decode_utf8(src@);
                    }
                    if !has_plain_byte_literals(src) {
                        return None;
                    }
                },
            }
        }
        Some(self.visit_mac(mac))
    }
}

}
