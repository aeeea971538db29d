//! The sources of the crate that is being built: spans, the files that they lie in,
//! and the text and the place that they stand for.

use cpp_synmap::SourceMap;
use vstd::prelude::*;
use vstd::utf8::*;

verus! {

/// A range of byte offsets, from `lo` up to but not including `hi`.
#[derive(Debug, Clone, Copy, PartialEq, Eq, Structural)]
pub struct Span {
    pub lo: usize,
    pub hi: usize,
}

impl Span {
    /// The span of what stands nowhere in the sources.
    pub open spec fn is_dummy(self) -> bool {
        self.lo == usize::MAX && self.hi == usize::MAX
    }

    /// The same range, moved up by `offset`.
    pub open spec fn moved(self, offset: int) -> Span {
        Span { lo: (self.lo + offset) as usize, hi: (self.hi + offset) as usize }
    }

    /// The span of what stands nowhere in the sources.
    pub fn dummy() -> (span: Span)
        ensures
            span.is_dummy(),
    {
        Span { lo: usize::MAX, hi: usize::MAX }
    }
}

/// A place in a source file.
#[derive(Debug)]
pub struct LocInfo {
    /// The path of the file, in the quoted form that `Debug` gives a path.
    pub path: String,
    /// The line, counted from one.
    pub line: usize,
    /// The column in bytes, counted from zero.
    pub col: usize,
}

/// A file of the crate: the byte offset at which its spans begin, its path in the
/// quoted form that `Debug` gives a path, and its text.
pub struct SourceFile {
    pub start: nat,
    pub path: Seq<char>,
    pub text: Seq<char>,
}

impl SourceFile {
    /// Whether the span lies in this file. Its end counts as part of it.
    pub open spec fn holds(self, span: Span) -> bool {
        self.start <= span.lo <= span.hi <= self.start + encode_utf8(self.text).len()
    }

    /// The bytes of a span that lies in this file.
    pub open spec fn bytes(self, span: Span) -> Seq<u8> {
        encode_utf8(self.text).subrange(span.lo - self.start, span.hi - self.start)
    }

    /// The bytes of this file in front of a span.
    pub open spec fn bytes_before(self, span: Span) -> Seq<u8> {
        encode_utf8(self.text).take(span.lo - self.start)
    }

    /// Whether the span starts and ends between characters of this file.
    pub open spec fn splits(self, span: Span) -> bool {
        &&& is_char_boundary(encode_utf8(self.text), span.lo - self.start)
        &&& is_char_boundary(encode_utf8(self.text), span.hi - self.start)
    }
}

/// The index of the first file, from the one at `from` on, that holds the span.
pub open spec fn file_index(files: Seq<SourceFile>, span: Span, from: int) -> Option<int>
    decreases files.len() - from,
{
    if from < 0 || from >= files.len() {
        None
    } else if files[from].holds(span) {
        Some(from)
    } else {
        file_index(files, span, from + 1)
    }
}

/// The file that holds the span.
pub open spec fn file_of(files: Seq<SourceFile>, span: Span) -> Option<SourceFile> {
    match file_index(files, span, 0) {
        Some(i) => Some(files[i]),
        None => None,
    }
}

/// The text of a span, where some file holds it.
pub open spec fn text_of(files: Seq<SourceFile>, span: Span) -> Option<Seq<char>> {
    match file_of(files, span) {
        Some(file) => Some(decode_utf8(file.bytes(span))),
        None => None,
    }
}

/// The line on which a text goes on after `bytes`, counted from one.
pub open spec fn line_after(bytes: Seq<u8>) -> nat
    decreases bytes.len(),
{
    if bytes.len() == 0 {
        1
    } else if bytes.last() == 10 {
        line_after(bytes.drop_last()) + 1
    } else {
        line_after(bytes.drop_last())
    }
}

/// The column at which a text goes on after `bytes`: the bytes since the last line
/// feed.
pub open spec fn column_after(bytes: Seq<u8>) -> nat
    decreases bytes.len(),
{
    if bytes.len() == 0 || bytes.last() == 10 {
        0
    } else {
        column_after(bytes.drop_last()) + 1
    }
}

/// Whether the files lie one behind the other, with at least one offset between them that
/// belongs to none: so they are laid out as they are read.
pub open spec fn laid_out(files: Seq<SourceFile>) -> bool {
    forall|i: int, j: int|
        0 <= i < j < files.len() ==> (#[trigger] files[i]).start + encode_utf8(files[i].text).len()
            < (#[trigger] files[j]).start
}

/// `cpp_synmap::SourceMap`, the files of a crate and the offsets of their spans.
#[verifier::external_type_specification]
#[verifier::external_body]
pub struct ExSourceMap(cpp_synmap::SourceMap);

/// `std::io::Error`, with which a source map refuses a span.
#[verifier::external_type_specification]
#[verifier::external_body]
pub struct ExIoError(std::io::Error);

/// The files that a source map holds, in the order in which it searches them.
pub uninterp spec fn source_files(sm: SourceMap) -> Seq<SourceFile>;

/// `SourceMap::source_text`: the text of the span, which it cuts out of the first file
/// that holds the span, or an error where no file does. The map gives every file the
/// offsets behind those of the files before it, and keeps one free in between. It panics
/// where the span splits a character, so such a span is left out.
#[verifier::external_body]
pub(crate) fn source_text(sm: &SourceMap, span: Span) -> (text: Result<&str, std::io::Error>)
    requires
        file_of(source_files(*sm), span) matches Some(file) ==> file.splits(span),
    ensures
        text is Ok <==> file_of(source_files(*sm), span) is Some,
        text matches Ok(text) ==> encode_utf8(text@) == file_of(
            source_files(*sm),
            span,
        )->0.bytes(span),
        text is Ok ==> laid_out(source_files(*sm)),
{
    sm.source_text(cpp_syn::Span { lo: span.lo, hi: span.hi })
}

/// `SourceMap::locinfo`: the path of the first file that holds the span, and the line
/// and the column of the span's start in it, or an error where no file holds the span. The
/// offsets of the files are as `source_text` says.
#[verifier::external_body]
pub(crate) fn locinfo(sm: &SourceMap, span: Span) -> (loc: Result<LocInfo, std::io::Error>)
    ensures
        loc is Ok <==> file_of(source_files(*sm), span) is Some,
        loc matches Ok(loc) ==> {
            let file = file_of(source_files(*sm), span)->0;
            &&& loc.path@ == file.path
            &&& loc.line == line_after(file.bytes_before(span))
            &&& loc.col == column_after(file.bytes_before(span))
        },
        loc is Ok ==> laid_out(source_files(*sm)),
{
    let loc = sm.locinfo(cpp_syn::Span { lo: span.lo, hi: span.hi })?;
    Ok(LocInfo { path: format!("{:?}", loc.path), line: loc.line, col: loc.col })
}

/// A file that is found holds the span.
pub proof fn lemma_file_index(files: Seq<SourceFile>, span: Span, from: int)
    requires
        0 <= from,
    ensures
        file_index(files, span, from) matches Some(i) ==> from <= i < files.len()
            && files[i].holds(span),
        file_index(files, span, from) is None ==> forall|i: int|
            from <= i < files.len() ==> !(#[trigger] files[i]).holds(span),
    decreases files.len() - from,
{
    if from < files.len() && !files[from].holds(span) {
        lemma_file_index(files, span, from + 1);
    }
}

}
