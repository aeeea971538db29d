//! Where the tokens of a `cpp!` invocation start, as `cpp_syn` reads them: whether one of
//! them is a byte literal of a character that no byte stands for.
//!
//! Where it is not clear from the tokens alone how `cpp_syn` reads on, every later position
//! counts as the start of a token.

use crate::text::characters;
use vstd::prelude::*;

verus! {

/// Whether the text has this character at this position.
pub open spec fn at_is(text: Seq<char>, at: int, c: char) -> bool {
    0 <= at < text.len() && text[at] == c
}

/// Whether a byte literal starts at this position with a character beyond ASCII.
pub open spec fn odd_byte(text: Seq<char>, at: int) -> bool {
    at_is(text, at, 'b') && at_is(text, at + 1, '\'') && at + 2 < text.len() && text[at + 2] as u32
        >= 128
}

/// Whether no position from this one on looks like such a byte literal.
pub open spec fn plain_rest(text: Seq<char>, from: int) -> bool {
    forall|at: int| from <= at ==> !#[trigger] odd_byte(text, at)
}

/// Whether a character is a letter of ASCII.
pub open spec fn is_letter(c: char) -> bool {
    'a' <= c <= 'z' || 'A' <= c <= 'Z'
}

/// Whether a character is a digit of ASCII.
pub open spec fn is_digit(c: char) -> bool {
    '0' <= c <= '9'
}

/// Whether a character is white space.
pub open spec fn is_blank(c: char) -> bool {
    ||| c == ' '
    ||| 0x09 <= c as u32 <= 0x0d
    ||| c as u32 == 0x85
    ||| c as u32 == 0xa0
    ||| c as u32 == 0x1680
    ||| 0x2000 <= c as u32 <= 0x200a
    ||| 0x200e <= c as u32 <= 0x200f
    ||| 0x2028 <= c as u32 <= 0x2029
    ||| c as u32 == 0x202f
    ||| c as u32 == 0x205f
    ||| c as u32 == 0x3000
}

/// Whether a character may start a name, other than `_`. One beyond ASCII that may not stands in
/// no token, but for comments and literals.
pub open spec fn starts_name(c: char) -> bool {
    is_letter(c) || (c as u32 >= 128 && !is_blank(c))
}

/// Whether a character may go on a word.
pub open spec fn is_word_char(c: char) -> bool {
    starts_name(c) || is_digit(c) || c == '_'
}

/// The first position from this one on that has the character.
pub open spec fn find(text: Seq<char>, c: char, from: int) -> Option<int>
    decreases text.len() - from,
{
    if from >= text.len() {
        None
    } else if at_is(text, from, c) {
        Some(from)
    } else {
        find(text, c, from + 1)
    }
}

/// Whether a comment for documentation starts here that ends with its line: `///` but not
/// `////`, or `//!`.
pub open spec fn is_doc_line(text: Seq<char>, at: int) -> bool {
    &&& at_is(text, at, '/')
    &&& at_is(text, at + 1, '/')
    &&& at_is(text, at + 2, '!') || (at_is(text, at + 2, '/') && !at_is(text, at + 3, '/'))
}

/// Whether another comment starts here that ends with its line.
pub open spec fn is_line_comment(text: Seq<char>, at: int) -> bool {
    at_is(text, at, '/') && at_is(text, at + 1, '/') && !is_doc_line(text, at)
}

/// Whether a comment for documentation starts here that has an end of its own: `/**` but
/// not `/***`, or `/*!`.
pub open spec fn is_doc_block(text: Seq<char>, at: int) -> bool {
    &&& at_is(text, at, '/')
    &&& at_is(text, at + 1, '*')
    &&& at_is(text, at + 2, '!') || (at_is(text, at + 2, '*') && !at_is(text, at + 3, '*'))
}

/// Whether another comment starts here that has an end of its own.
pub open spec fn is_block_comment(text: Seq<char>, at: int) -> bool {
    at_is(text, at, '/') && at_is(text, at + 1, '*') && !is_doc_block(text, at)
}

/// The end of a comment that `depth` comments are open of at this position.
pub open spec fn block_end(text: Seq<char>, at: int, depth: nat) -> Option<int>
    decreases text.len() - at,
{
    if at + 1 >= text.len() {
        None
    } else if at_is(text, at, '/') && at_is(text, at + 1, '*') {
        block_end(text, at + 2, depth + 1)
    } else if at_is(text, at, '*') && at_is(text, at + 1, '/') {
        if depth <= 1 {
            Some(at + 2)
        } else {
            block_end(text, at + 2, (depth - 1) as nat)
        }
    } else {
        block_end(text, at + 1, depth)
    }
}

/// The end of the white space and the comments from this position on, or nothing where one of
/// the comments does not end.
pub open spec fn space_end(text: Seq<char>, at: int) -> Option<int>
    decreases text.len() - at,
    via space_end_decreases
{
    if at < 0 || at >= text.len() {
        Some(at)
    } else if is_line_comment(text, at) {
        match find(text, '\n', at) {
            Some(end) => space_end(text, end + 1),
            None => Some(text.len() as int),
        }
    } else if is_block_comment(text, at) {
        match block_end(text, at, 0) {
            Some(end) => space_end(text, end),
            None => None,
        }
    } else if is_blank(text[at]) {
        space_end(text, at + 1)
    } else {
        Some(at)
    }
}

#[via_fn]
proof fn space_end_decreases(text: Seq<char>, at: int) {
    if at >= 0 {
        lemma_find(text, '\n', at);
        lemma_block_end(text, at, 0);
    }
}

/// The text without the white space and the comments at its start. Where one of those comments
/// does not end, all of them stay.
pub open spec fn without_leading_space(text: Seq<char>) -> Seq<char> {
    match space_end(text, 0) {
        Some(end) => text.skip(end),
        None => text,
    }
}

/// The end of a string literal, from a position behind its opening quote: behind the first
/// quote that no backslash stands in front of.
pub open spec fn string_end(text: Seq<char>, at: int) -> Option<int>
    decreases text.len() - at,
{
    if at >= text.len() {
        None
    } else if at_is(text, at, '"') {
        Some(at + 1)
    } else if at_is(text, at, '\\') {
        if at + 1 < text.len() {
            string_end(text, at + 2)
        } else {
            None
        }
    } else {
        string_end(text, at + 1)
    }
}

/// The end of the hashes from this position on.
pub open spec fn hashes_end(text: Seq<char>, at: int) -> int
    decreases text.len() - at,
{
    if at < text.len() && at_is(text, at, '#') {
        hashes_end(text, at + 1)
    } else {
        at
    }
}

/// The end of a raw string literal with this many hashes, from a position behind its opening
/// quote.
pub open spec fn raw_close(text: Seq<char>, at: int, hashes: int) -> Option<int>
    decreases text.len() - at,
{
    if at >= text.len() {
        None
    } else if at_is(text, at, '"') && hashes_end(text, at + 1) >= at + 1 + hashes {
        Some(at + 1 + hashes)
    } else {
        raw_close(text, at + 1, hashes)
    }
}

/// The end of a raw string literal, from the position behind its `r`, or nothing where there is
/// none.
pub open spec fn raw_end(text: Seq<char>, at: int) -> Option<int> {
    let quote = hashes_end(text, at);
    if at_is(text, quote, '"') {
        raw_close(text, quote + 1, quote - at)
    } else {
        None
    }
}

/// The end of the characters from this position on that may go on a word.
pub open spec fn word_end(text: Seq<char>, at: int) -> int
    decreases text.len() - at,
{
    if at < text.len() && is_word_char(text[at]) {
        word_end(text, at + 1)
    } else {
        at
    }
}

/// The end of the word that starts here, or of the raw string literal that it is the start of.
pub open spec fn name_end(text: Seq<char>, at: int) -> int {
    let raw = if at_is(text, at, 'r') {
        raw_end(text, at + 1)
    } else if at_is(text, at, 'b') && at_is(text, at + 1, 'r') {
        raw_end(text, at + 2)
    } else {
        None
    };
    match raw {
        Some(end) => end,
        None => word_end(text, at),
    }
}

/// The end of the lifetime that starts here with a quote: white space may stand between that
/// and the name.
pub open spec fn lifetime_end(text: Seq<char>, at: int) -> Option<int> {
    match space_end(text, at + 1) {
        Some(start) => if start < text.len() && is_word_char(text[start]) {
            Some(word_end(text, start))
        } else {
            None
        },
        None => None,
    }
}

/// The end of the character literal or the lifetime that starts here with a quote, or nothing
/// where it is neither.
pub open spec fn quote_end(text: Seq<char>, at: int) -> Option<int> {
    if at_is(text, at + 1, '\\') {
        match find(text, '\'', at + 3) {
            Some(end) => Some(end + 1),
            None => None,
        }
    } else if at_is(text, at + 2, '\'') {
        Some(at + 3)
    } else {
        lifetime_end(text, at)
    }
}

/// The end of the digits of a floating point number up to its exponent, whether there is a
/// point among them, and whether an exponent follows. Nothing, where what follows the point
/// makes it no part of the number.
pub open spec fn mantissa(text: Seq<char>, at: int, point: bool) -> Option<(int, bool, bool)>
    decreases text.len() - at,
{
    if at >= text.len() {
        Some((at, point, false))
    } else if is_digit(text[at]) || text[at] == '_' {
        mantissa(text, at + 1, point)
    } else if text[at] == '.' && !point {
        if at_is(text, at + 1, '.') || (at + 1 < text.len() && starts_name(text[at + 1])) {
            None
        } else {
            mantissa(text, at + 1, true)
        }
    } else if text[at] == 'e' || text[at] == 'E' {
        Some((at + 1, point, true))
    } else {
        Some((at, point, false))
    }
}

/// The end of an exponent, of which a digit has been read or not, or nothing where it has none.
pub open spec fn exponent_end(text: Seq<char>, at: int, digit: bool) -> Option<int>
    decreases text.len() - at,
{
    if at < text.len() && is_digit(text[at]) {
        exponent_end(text, at + 1, true)
    } else if at < text.len() && (text[at] == '_' || ((text[at] == '+' || text[at] == '-')
        && !digit)) {
        exponent_end(text, at + 1, digit)
    } else if digit {
        Some(at)
    } else {
        None
    }
}

/// Whether the suffix of a floating point number stands here.
pub open spec fn is_float_suffix(text: Seq<char>, at: int) -> bool {
    at_is(text, at, 'f') && ((at_is(text, at + 1, '3') && at_is(text, at + 2, '2')) || (at_is(
        text,
        at + 1,
        '6',
    ) && at_is(text, at + 2, '4')))
}

/// The end of the floating point number that starts here, or nothing where there is none.
pub open spec fn float_end(text: Seq<char>, at: int) -> Option<int> {
    match mantissa(text, at, false) {
        None => None,
        Some((end, point, exponent)) => {
            let digits = if exponent {
                exponent_end(text, end, false)
            } else if point || is_float_suffix(text, end) {
                Some(end)
            } else {
                None
            };
            match digits {
                Some(end) => Some(
                    if is_float_suffix(text, end) {
                        end + 3
                    } else {
                        end
                    },
                ),
                None => None,
            }
        },
    }
}

/// The end of the digits of any base from this position on.
pub open spec fn digits_end(text: Seq<char>, at: int) -> int
    decreases text.len() - at,
{
    if at < text.len() && (is_digit(text[at]) || 'a' <= text[at] <= 'f' || 'A' <= text[at] <= 'F'
        || text[at] == '_') {
        digits_end(text, at + 1)
    } else {
        at
    }
}

/// The length of the suffix of an integer that stands here.
pub open spec fn int_suffix(text: Seq<char>, at: int) -> int {
    if !at_is(text, at, 'i') && !at_is(text, at, 'u') {
        0
    } else if at_is(text, at + 1, '8') {
        2
    } else if (at_is(text, at + 1, '1') && at_is(text, at + 2, '6')) || (at_is(text, at + 1, '3')
        && at_is(text, at + 2, '2')) || (at_is(text, at + 1, '6') && at_is(text, at + 2, '4')) {
        3
    } else if at_is(text, at + 1, 's') && at_is(text, at + 2, 'i') && at_is(text, at + 3, 'z')
        && at_is(text, at + 4, 'e') {
        5
    } else {
        0
    }
}

/// The end of the integer that starts here.
pub open spec fn int_end(text: Seq<char>, at: int) -> int {
    let start = if at_is(text, at, '0') && (at_is(text, at + 1, 'x') || at_is(text, at + 1, 'o')
        || at_is(text, at + 1, 'b')) {
        at + 2
    } else {
        at
    };
    let end = digits_end(text, start);
    end + int_suffix(text, end)
}

/// The end of the number that starts here with a digit.
pub open spec fn number_end(text: Seq<char>, at: int) -> int {
    match float_end(text, at) {
        Some(end) => end,
        None => int_end(text, at),
    }
}

/// A position behind the start of the token that starts here, such that no token starts in
/// between, or nothing where no token starts here.
pub open spec fn token_end(text: Seq<char>, at: int) -> Option<int> {
    if at_is(text, at, '"') {
        string_end(text, at + 1)
    } else if at_is(text, at, '\'') {
        quote_end(text, at)
    } else if is_digit(text[at]) {
        Some(number_end(text, at))
    } else if is_word_char(text[at]) {
        Some(name_end(text, at))
    } else {
        let doc = if is_doc_line(text, at) {
            find(text, '\n', at)
        } else if is_doc_block(text, at) {
            block_end(text, at, 0)
        } else {
            None
        };
        match doc {
            Some(end) => Some(end),
            None => Some(at + 1),
        }
    }
}

/// The parts of an invocation, in each of which `cpp_syn` reads tokens in its own way.
#[derive(Debug, Clone, Copy, PartialEq, Eq, Structural)]
pub enum Part {
    /// The captures and the types, in front of the code.
    Header,
    /// The length of an array type in the header, which is an expression.
    Length,
    /// A macro in the header.
    Nested,
    /// The code, and what stands behind it.
    Code,
}

/// Whether a bracket is opened here.
pub open spec fn opens(text: Seq<char>, at: int) -> bool {
    at_is(text, at, '(') || at_is(text, at, '[') || at_is(text, at, '{')
}

/// Whether a bracket is closed here.
pub open spec fn closes(text: Seq<char>, at: int) -> bool {
    at_is(text, at, ')') || at_is(text, at, ']') || at_is(text, at, '}')
}

/// Whether the word `break` stands here with what may be a label behind it or a character
/// literal.
pub open spec fn is_break(text: Seq<char>, at: int) -> bool {
    &&& at_is(text, at, 'b')
    &&& at_is(text, at + 1, 'r')
    &&& at_is(text, at + 2, 'e')
    &&& at_is(text, at + 3, 'a')
    &&& at_is(text, at + 4, 'k')
    &&& word_end(text, at) == at + 5
    &&& space_end(text, at + 5) matches Some(start) && at_is(text, start, '\'') && !at_is(
        text,
        start + 1,
        '\\',
    ) && at_is(text, start + 2, '\'')
}

/// The end of the decimal digits and the points from this position on.
pub open spec fn decimals_end(text: Seq<char>, at: int) -> int
    decreases text.len() - at,
{
    if at < text.len() && (is_digit(text[at]) || text[at] == '.') {
        decimals_end(text, at + 1)
    } else {
        at
    }
}

/// Whether a point stands here with a number behind it which, read as the names of fields, may
/// end elsewhere.
pub open spec fn is_field(text: Seq<char>, at: int) -> bool {
    at_is(text, at, '.') && match space_end(text, at + 1) {
        Some(start) => start < text.len() && is_digit(text[start]) && number_end(text, start)
            != word_end(text, start) && number_end(text, start) > decimals_end(text, start),
        None => false,
    }
}

/// As `token_end`, but nothing also where an expression may go on in other tokens.
pub open spec fn end_in(text: Seq<char>, at: int, part: Part) -> Option<int> {
    if part is Length && (is_break(text, at) || is_field(text, at)) {
        None
    } else {
        token_end(text, at)
    }
}

/// Whether a comment for documentation stands here which, in an expression, may also be read as
/// a division by what it holds.
pub open spec fn is_division(text: Seq<char>, at: int, part: Part) -> bool {
    part is Length && is_doc_block(text, at) && block_end(text, at, 0) is Some
}

/// Whether an exclamation mark stands here that makes a macro of the name in front of it.
pub open spec fn is_macro_mark(text: Seq<char>, at: int) -> bool {
    at_is(text, at, '!') && match space_end(text, at + 1) {
        Some(start) => opens(text, start),
        None => false,
    }
}

/// The part behind a token, and the brackets that are open in it.
pub open spec fn part_behind(text: Seq<char>, at: int, part: Part, depth: nat) -> (Part, nat) {
    match part {
        Part::Code => (part, depth),
        Part::Header => if at_is(text, at, '{') {
            (Part::Code, 0)
        } else if at_is(text, at, ';') {
            (Part::Length, 0)
        } else if is_macro_mark(text, at) {
            (Part::Nested, 0)
        } else {
            (part, depth)
        },
        Part::Length | Part::Nested => if opens(text, at) {
            (part, depth + 1)
        } else if !closes(text, at) {
            (part, depth)
        } else if depth == 0 || (part is Nested && depth == 1) {
            (Part::Header, 0)
        } else {
            (part, (depth - 1) as nat)
        },
    }
}

/// Whether no byte literal that is read from this position on starts with a character beyond
/// ASCII, in a part with this many open brackets.
pub open spec fn plain_from(text: Seq<char>, at: int, part: Part, depth: nat) -> bool
    decreases text.len() - at,
    via plain_from_decreases
{
    if at < 0 || at >= text.len() {
        true
    } else {
        match space_end(text, at) {
            // A comment that does not end is none, and the white space in front of it is not
            // passed over.
            None => if is_blank(text[at]) {
                plain_rest(text, at)
            } else {
                plain_from(text, at + 1, part, depth)
            },
            Some(start) => if start > at {
                plain_from(text, start, part, depth)
            } else if odd_byte(text, at) {
                false
            } else {
                match end_in(text, at, part) {
                    None => plain_rest(text, at),
                    Some(end) => {
                        let (next_part, next_depth) = part_behind(text, at, part, depth);
                        &&& plain_from(text, end, next_part, next_depth)
                        &&& is_division(text, at, part) ==> plain_from(text, at + 1, part, depth)
                    },
                }
            },
        }
    }
}

#[via_fn]
proof fn plain_from_decreases(text: Seq<char>, at: int, part: Part, depth: nat) {
    if 0 <= at < text.len() {
        lemma_space_end(text, at);
        lemma_token_end(text, at);
    }
}

/// Whether no byte literal among the tokens of an invocation starts with a character beyond
/// ASCII. What stands in comments and other literals is no byte literal. A text that does not
/// start with a bracket is no invocation, and none of its tokens is read.
pub open spec fn plain_byte_literals(text: Seq<char>) -> bool {
    match space_end(text, 0) {
        None => plain_rest(text, 0),
        Some(start) => if opens(text, start) {
            plain_from(text, start + 1, Part::Header, 0)
        } else {
            true
        },
    }
}

proof fn lemma_find(text: Seq<char>, c: char, from: int)
    requires
        0 <= from,
    ensures
        find(text, c, from) matches Some(at) ==> from <= at && at_is(text, at, c),
    decreases text.len() - from,
{
    if from < text.len() && !at_is(text, from, c) {
        lemma_find(text, c, from + 1);
    }
}

proof fn lemma_block_end(text: Seq<char>, at: int, depth: nat)
    ensures
        block_end(text, at, depth) matches Some(end) ==> at + 2 <= end <= text.len(),
    decreases text.len() - at,
{
    if at + 1 >= text.len() {
    } else if at_is(text, at, '/') && at_is(text, at + 1, '*') {
        lemma_block_end(text, at + 2, depth + 1);
    } else if at_is(text, at, '*') && at_is(text, at + 1, '/') {
        if depth > 1 {
            lemma_block_end(text, at + 2, (depth - 1) as nat);
        }
    } else {
        lemma_block_end(text, at + 1, depth);
    }
}

/// White space ends at or behind its start.
pub proof fn lemma_space_end(text: Seq<char>, at: int)
    requires
        0 <= at <= text.len(),
    ensures
        space_end(text, at) matches Some(end) ==> at <= end <= text.len(),
    decreases text.len() - at,
{
    if at < text.len() {
        lemma_find(text, '\n', at);
        lemma_block_end(text, at, 0);
        if is_line_comment(text, at) {
            match find(text, '\n', at) {
                Some(end) => lemma_space_end(text, end + 1),
                None => {},
            }
        } else if is_block_comment(text, at) {
            match block_end(text, at, 0) {
                Some(end) => lemma_space_end(text, end),
                None => {},
            }
        } else if is_blank(text[at]) {
            lemma_space_end(text, at + 1);
        }
    }
}

proof fn lemma_string_end(text: Seq<char>, at: int)
    ensures
        string_end(text, at) matches Some(end) ==> at < end <= text.len(),
    decreases text.len() - at,
{
    if at >= text.len() || at_is(text, at, '"') {
    } else if at_is(text, at, '\\') {
        if at + 1 < text.len() {
            lemma_string_end(text, at + 2);
        }
    } else {
        lemma_string_end(text, at + 1);
    }
}

proof fn lemma_hashes_end(text: Seq<char>, at: int)
    ensures
        at <= hashes_end(text, at),
        at <= text.len() ==> hashes_end(text, at) <= text.len(),
    decreases text.len() - at,
{
    if at < text.len() && at_is(text, at, '#') {
        lemma_hashes_end(text, at + 1);
    }
}

proof fn lemma_raw_close(text: Seq<char>, at: int, hashes: int)
    requires
        0 <= hashes,
    ensures
        raw_close(text, at, hashes) matches Some(end) ==> at < end <= text.len(),
    decreases text.len() - at,
{
    if at < text.len() {
        lemma_hashes_end(text, at + 1);
        lemma_raw_close(text, at + 1, hashes);
    }
}

proof fn lemma_raw_end(text: Seq<char>, at: int)
    ensures
        raw_end(text, at) matches Some(end) ==> at < end <= text.len(),
{
    lemma_hashes_end(text, at);
    let quote = hashes_end(text, at);
    lemma_raw_close(text, quote + 1, quote - at);
}

proof fn lemma_word_end(text: Seq<char>, at: int)
    ensures
        at <= word_end(text, at),
        at <= text.len() ==> word_end(text, at) <= text.len(),
    decreases text.len() - at,
{
    if at < text.len() && is_word_char(text[at]) {
        lemma_word_end(text, at + 1);
    }
}

proof fn lemma_name_end(text: Seq<char>, at: int)
    requires
        0 <= at < text.len(),
        is_word_char(text[at]),
    ensures
        at < name_end(text, at) <= text.len(),
{
    lemma_raw_end(text, at + 1);
    lemma_raw_end(text, at + 2);
    lemma_word_end(text, at + 1);
}

proof fn lemma_quote_end(text: Seq<char>, at: int)
    requires
        0 <= at < text.len(),
    ensures
        quote_end(text, at) matches Some(end) ==> at < end <= text.len(),
{
    lemma_find(text, '\'', at + 3);
    lemma_space_end(text, at + 1);
    match space_end(text, at + 1) {
        Some(start) => lemma_word_end(text, start),
        None => {},
    }
}

proof fn lemma_mantissa(text: Seq<char>, at: int, point: bool)
    requires
        0 <= at <= text.len(),
    ensures
        mantissa(text, at, point) matches Some((end, _, _)) ==> at <= end <= text.len(),
        at < text.len() && is_digit(text[at]) ==> (mantissa(text, at, point) matches Some((end, _, _))
            ==> at < end),
    decreases text.len() - at,
{
    if at < text.len() {
        if is_digit(text[at]) || text[at] == '_' {
            lemma_mantissa(text, at + 1, point);
        } else if text[at] == '.' {
            lemma_mantissa(text, at + 1, true);
        }
    }
}

proof fn lemma_exponent_end(text: Seq<char>, at: int, digit: bool)
    requires
        0 <= at <= text.len(),
    ensures
        exponent_end(text, at, digit) matches Some(end) ==> at <= end <= text.len(),
    decreases text.len() - at,
{
    if at < text.len() {
        lemma_exponent_end(text, at + 1, true);
        lemma_exponent_end(text, at + 1, digit);
    }
}

proof fn lemma_digits_end(text: Seq<char>, at: int)
    ensures
        at <= digits_end(text, at),
        at <= text.len() ==> digits_end(text, at) <= text.len(),
    decreases text.len() - at,
{
    if at < text.len() {
        lemma_digits_end(text, at + 1);
    }
}

proof fn lemma_number_end(text: Seq<char>, at: int)
    requires
        0 <= at < text.len(),
        is_digit(text[at]),
    ensures
        at < number_end(text, at) <= text.len(),
{
    lemma_mantissa(text, at, false);
    match mantissa(text, at, false) {
        Some((end, _, _)) => lemma_exponent_end(text, end, false),
        None => {},
    }
    lemma_digits_end(text, at + 1);
    lemma_digits_end(text, at + 2);
}

/// A token ends behind its start.
proof fn lemma_token_end(text: Seq<char>, at: int)
    requires
        0 <= at < text.len(),
    ensures
        token_end(text, at) matches Some(end) ==> at < end <= text.len(),
{
    lemma_string_end(text, at + 1);
    lemma_quote_end(text, at);
    if is_digit(text[at]) {
        lemma_number_end(text, at);
    } else if is_word_char(text[at]) {
        lemma_name_end(text, at);
    }
    lemma_find(text, '\n', at);
    lemma_block_end(text, at, 0);
}

/// A text in which nothing looks like an odd byte literal is plain, from wherever it is read.
pub proof fn lemma_plain_rest(text: Seq<char>, at: int, part: Part, depth: nat)
    requires
        0 <= at,
        plain_rest(text, at),
    ensures
        plain_from(text, at, part, depth),
    decreases text.len() - at,
{
    if at < text.len() {
        lemma_space_end(text, at);
        lemma_token_end(text, at);
        match space_end(text, at) {
            None => lemma_plain_rest(text, at + 1, part, depth),
            Some(start) => if start > at {
                lemma_plain_rest(text, start, part, depth);
            } else {
                match end_in(text, at, part) {
                    None => {},
                    Some(end) => {
                        let behind = part_behind(text, at, part, depth);
                        lemma_plain_rest(text, end, behind.0, behind.1);
                        lemma_plain_rest(text, at + 1, part, depth);
                    },
                }
            },
        }
    }
}

/// The position that an end stands for.
pub open spec fn optional_end(end: Option<usize>) -> Option<int> {
    match end {
        Some(end) => Some(end as int),
        None => None,
    }
}

/// Whether the text has this character `k` positions behind this one.
fn look(chars: &Vec<char>, at: usize, k: usize, c: char) -> (found: bool)
    ensures
        found == at_is(chars@, at + k, c),
{
    at < chars.len() && k < chars.len() - at && chars[at + k] == c
}

fn starts_odd_byte(chars: &Vec<char>, at: usize) -> (odd: bool)
    ensures
        odd == odd_byte(chars@, at as int),
{
    look(chars, at, 0, 'b') && look(chars, at, 1, '\'') && chars.len() - at > 2 && chars[at + 2]
        as u32 >= 128
}

fn has_plain_rest(chars: &Vec<char>, from: usize) -> (plain: bool)
    ensures
        plain == plain_rest(chars@, from as int),
{
    let mut at = from;
    while at < chars.len()
        invariant
            from <= at,
            forall|i: int| from <= i < at ==> !#[trigger] odd_byte(chars@, i),
        decreases chars.len() - at,
    {
        if starts_odd_byte(chars, at) {
            return false;
        }
        at += 1;
    }
    true
}

fn letter(c: char) -> (is: bool)
    ensures
        is == is_letter(c),
{
    ('a' <= c && c <= 'z') || ('A' <= c && c <= 'Z')
}

fn digit(c: char) -> (is: bool)
    ensures
        is == is_digit(c),
{
    '0' <= c && c <= '9'
}

fn blank(c: char) -> (is: bool)
    ensures
        is == is_blank(c),
{
    let code = c as u32;
    c == ' ' || (0x09 <= code && code <= 0x0d) || code == 0x85 || code == 0xa0 || code == 0x1680
        || (0x2000 <= code && code <= 0x200a) || (0x200e <= code && code <= 0x200f) || (0x2028
        <= code && code <= 0x2029) || code == 0x202f || code == 0x205f || code == 0x3000
}

fn name_start(c: char) -> (is: bool)
    ensures
        is == starts_name(c),
{
    letter(c) || (c as u32 >= 128 && !blank(c))
}

fn word_char(c: char) -> (is: bool)
    ensures
        is == is_word_char(c),
{
    name_start(c) || digit(c) || c == '_'
}

fn find_from(chars: &Vec<char>, c: char, from: usize) -> (found: Option<usize>)
    ensures
        optional_end(found) == find(chars@, c, from as int),
{
    let mut at = from;
    while at < chars.len()
        invariant
            find(chars@, c, from as int) == find(chars@, c, at as int),
        decreases chars.len() - at,
    {
        if chars[at] == c {
            return Some(at);
        }
        at += 1;
    }
    None
}

fn starts_doc_line(chars: &Vec<char>, at: usize) -> (starts: bool)
    ensures
        starts == is_doc_line(chars@, at as int),
{
    look(chars, at, 0, '/') && look(chars, at, 1, '/') && (look(chars, at, 2, '!') || (look(
        chars,
        at,
        2,
        '/',
    ) && !look(chars, at, 3, '/')))
}

fn starts_doc_block(chars: &Vec<char>, at: usize) -> (starts: bool)
    ensures
        starts == is_doc_block(chars@, at as int),
{
    look(chars, at, 0, '/') && look(chars, at, 1, '*') && (look(chars, at, 2, '!') || (look(
        chars,
        at,
        2,
        '*',
    ) && !look(chars, at, 3, '*')))
}

fn block_end_from(chars: &Vec<char>, from: usize) -> (end: Option<usize>)
    ensures
        optional_end(end) == block_end(chars@, from as int, 0),
{
    let mut at = from;
    let mut depth: usize = 0;
    while at < chars.len() && chars.len() - at > 1
        invariant
            depth <= at,
            block_end(chars@, from as int, 0) == block_end(chars@, at as int, depth as nat),
        decreases chars.len() - at,
    {
        if look(chars, at, 0, '/') && look(chars, at, 1, '*') {
            depth += 1;
            at += 2;
        } else if look(chars, at, 0, '*') && look(chars, at, 1, '/') {
            if depth <= 1 {
                return Some(at + 2);
            }
            depth -= 1;
            at += 2;
        } else {
            at += 1;
        }
    }
    None
}

fn space_end_from(chars: &Vec<char>, from: usize) -> (end: Option<usize>)
    requires
        from <= chars.len(),
    ensures
        optional_end(end) == space_end(chars@, from as int),
{
    let mut at = from;
    while at < chars.len()
        invariant
            from <= at <= chars.len(),
            space_end(chars@, from as int) == space_end(chars@, at as int),
        decreases chars.len() - at,
    {
        proof {
            lemma_find(chars@, '\n', at as int);
            lemma_block_end(chars@, at as int, 0);
        }
        if look(chars, at, 0, '/') && look(chars, at, 1, '/') && !starts_doc_line(chars, at) {
            match find_from(chars, '\n', at) {
                Some(end) => {
                    at = end + 1;
                },
                None => {
                    return Some(chars.len());
                },
            }
        } else if look(chars, at, 0, '/') && look(chars, at, 1, '*') && !starts_doc_block(
            chars,
            at,
        ) {
            match block_end_from(chars, at) {
                Some(end) => {
                    at = end;
                },
                None => {
                    return None;
                },
            }
        } else if blank(chars[at]) {
            at += 1;
        } else {
            return Some(at);
        }
    }
    Some(at)
}

fn string_end_from(chars: &Vec<char>, from: usize) -> (end: Option<usize>)
    ensures
        optional_end(end) == string_end(chars@, from as int),
{
    let mut at = from;
    while at < chars.len()
        invariant
            string_end(chars@, from as int) == string_end(chars@, at as int),
        decreases chars.len() - at,
    {
        if chars[at] == '"' {
            return Some(at + 1);
        } else if chars[at] == '\\' {
            if chars.len() - at <= 1 {
                return None;
            }
            at += 2;
        } else {
            at += 1;
        }
    }
    None
}

fn hashes_end_from(chars: &Vec<char>, from: usize) -> (end: usize)
    ensures
        end == hashes_end(chars@, from as int),
{
    let mut at = from;
    while at < chars.len() && chars[at] == '#'
        invariant
            hashes_end(chars@, from as int) == hashes_end(chars@, at as int),
        decreases chars.len() - at,
    {
        at += 1;
    }
    at
}

fn raw_end_from(chars: &Vec<char>, from: usize) -> (end: Option<usize>)
    ensures
        optional_end(end) == raw_end(chars@, from as int),
{
    let quote = hashes_end_from(chars, from);
    proof {
        lemma_hashes_end(chars@, from as int);
    }
    if quote >= chars.len() || chars[quote] != '"' {
        return None;
    }
    let hashes: usize = quote - from;
    let mut at: usize = quote + 1;
    while at < chars.len()
        invariant
            raw_end(chars@, from as int) == raw_close(chars@, at as int, hashes as int),
        decreases chars.len() - at,
    {
        if chars[at] == '"' {
            let behind = hashes_end_from(chars, at + 1);
            proof {
                lemma_hashes_end(chars@, at + 1);
            }
            if behind - (at + 1) >= hashes {
                return Some(at + 1 + hashes);
            }
        }
        at += 1;
    }
    None
}

fn word_end_from(chars: &Vec<char>, from: usize) -> (end: usize)
    ensures
        end == word_end(chars@, from as int),
{
    let mut at = from;
    while at < chars.len() && word_char(chars[at])
        invariant
            word_end(chars@, from as int) == word_end(chars@, at as int),
        decreases chars.len() - at,
    {
        at += 1;
    }
    at
}

fn name_end_from(chars: &Vec<char>, at: usize) -> (end: usize)
    requires
        at < chars.len(),
    ensures
        end == name_end(chars@, at as int),
{
    let raw = if look(chars, at, 0, 'r') {
        raw_end_from(chars, at + 1)
    } else if look(chars, at, 0, 'b') && look(chars, at, 1, 'r') {
        raw_end_from(chars, at + 2)
    } else {
        None
    };
    match raw {
        Some(end) => end,
        None => word_end_from(chars, at),
    }
}

fn quote_end_from(chars: &Vec<char>, at: usize) -> (end: Option<usize>)
    requires
        at < chars.len(),
    ensures
        optional_end(end) == quote_end(chars@, at as int),
{
    if look(chars, at, 1, '\\') {
        if chars.len() - at <= 3 {
            return None;
        }
        proof {
            lemma_find(chars@, '\'', at + 3);
        }
        match find_from(chars, '\'', at + 3) {
            Some(end) => Some(end + 1),
            None => None,
        }
    } else if look(chars, at, 2, '\'') {
        Some(at + 3)
    } else {
        match space_end_from(chars, at + 1) {
            Some(start) => if start < chars.len() && word_char(chars[start]) {
                Some(word_end_from(chars, start))
            } else {
                None
            },
            None => None,
        }
    }
}

fn mantissa_from(chars: &Vec<char>, from: usize) -> (read: Option<(usize, bool, bool)>)
    requires
        from <= chars.len(),
    ensures
        match read {
            Some((end, point, exponent)) => mantissa(chars@, from as int, false) == Some(
                (end as int, point, exponent),
            ),
            None => mantissa(chars@, from as int, false) is None,
        },
{
    let mut at = from;
    let mut point = false;
    while at < chars.len()
        invariant
            at <= chars.len(),
            mantissa(chars@, from as int, false) == mantissa(chars@, at as int, point),
        decreases chars.len() - at,
    {
        let c = chars[at];
        if digit(c) || c == '_' {
            at += 1;
        } else if c == '.' && !point {
            if look(chars, at, 1, '.') || (chars.len() - at > 1 && name_start(chars[at + 1])) {
                return None;
            }
            point = true;
            at += 1;
        } else if c == 'e' || c == 'E' {
            return Some((at + 1, point, true));
        } else {
            return Some((at, point, false));
        }
    }
    Some((at, point, false))
}

fn exponent_end_from(chars: &Vec<char>, from: usize) -> (end: Option<usize>)
    requires
        from <= chars.len(),
    ensures
        optional_end(end) == exponent_end(chars@, from as int, false),
{
    let mut at = from;
    let mut read = false;
    while at < chars.len() && (digit(chars[at]) || chars[at] == '_' || ((chars[at] == '+'
        || chars[at] == '-') && !read))
        invariant
            at <= chars.len(),
            exponent_end(chars@, from as int, false) == exponent_end(chars@, at as int, read),
        decreases chars.len() - at,
    {
        if digit(chars[at]) {
            read = true;
        }
        at += 1;
    }
    if read {
        Some(at)
    } else {
        None
    }
}

fn float_suffix_at(chars: &Vec<char>, at: usize) -> (is: bool)
    ensures
        is == is_float_suffix(chars@, at as int),
{
    look(chars, at, 0, 'f') && ((look(chars, at, 1, '3') && look(chars, at, 2, '2')) || (look(
        chars,
        at,
        1,
        '6',
    ) && look(chars, at, 2, '4')))
}

fn float_end_from(chars: &Vec<char>, at: usize) -> (end: Option<usize>)
    requires
        at <= chars.len(),
    ensures
        optional_end(end) == float_end(chars@, at as int),
{
    proof {
        lemma_mantissa(chars@, at as int, false);
    }
    match mantissa_from(chars, at) {
        None => None,
        Some((end, point, exponent)) => {
            let digits = if exponent {
                exponent_end_from(chars, end)
            } else if point || float_suffix_at(chars, end) {
                Some(end)
            } else {
                None
            };
            match digits {
                None => None,
                Some(end) => if float_suffix_at(chars, end) {
                    Some(end + 3)
                } else {
                    Some(end)
                },
            }
        },
    }
}

fn digits_end_from(chars: &Vec<char>, from: usize) -> (end: usize)
    ensures
        end == digits_end(chars@, from as int),
{
    let mut at = from;
    while at < chars.len() && (digit(chars[at]) || ('a' <= chars[at] && chars[at] <= 'f') || ('A'
        <= chars[at] && chars[at] <= 'F') || chars[at] == '_')
        invariant
            digits_end(chars@, from as int) == digits_end(chars@, at as int),
        decreases chars.len() - at,
    {
        at += 1;
    }
    at
}

fn int_suffix_at(chars: &Vec<char>, at: usize) -> (len: usize)
    ensures
        len == int_suffix(chars@, at as int),
        len > 0 ==> at + len <= chars.len(),
{
    if !look(chars, at, 0, 'i') && !look(chars, at, 0, 'u') {
        0
    } else if look(chars, at, 1, '8') {
        2
    } else if (look(chars, at, 1, '1') && look(chars, at, 2, '6')) || (look(chars, at, 1, '3')
        && look(chars, at, 2, '2')) || (look(chars, at, 1, '6') && look(chars, at, 2, '4')) {
        3
    } else if look(chars, at, 1, 's') && look(chars, at, 2, 'i') && look(chars, at, 3, 'z')
        && look(chars, at, 4, 'e') {
        5
    } else {
        0
    }
}

fn number_end_from(chars: &Vec<char>, at: usize) -> (end: usize)
    requires
        at < chars.len(),
    ensures
        end == number_end(chars@, at as int),
{
    match float_end_from(chars, at) {
        Some(end) => end,
        None => {
            let start = if look(chars, at, 0, '0') && (look(chars, at, 1, 'x') || look(
                chars,
                at,
                1,
                'o',
            ) || look(chars, at, 1, 'b')) {
                at + 2
            } else {
                at
            };
            let end = digits_end_from(chars, start);
            end + int_suffix_at(chars, end)
        },
    }
}

fn token_end_from(chars: &Vec<char>, at: usize) -> (end: Option<usize>)
    requires
        at < chars.len(),
    ensures
        optional_end(end) == token_end(chars@, at as int),
{
    if chars[at] == '"' {
        string_end_from(chars, at + 1)
    } else if chars[at] == '\'' {
        quote_end_from(chars, at)
    } else if digit(chars[at]) {
        Some(number_end_from(chars, at))
    } else if word_char(chars[at]) {
        Some(name_end_from(chars, at))
    } else {
        let doc = if starts_doc_line(chars, at) {
            find_from(chars, '\n', at)
        } else if starts_doc_block(chars, at) {
            block_end_from(chars, at)
        } else {
            None
        };
        match doc {
            Some(end) => Some(end),
            None => Some(at + 1),
        }
    }
}

fn opens_at(chars: &Vec<char>, at: usize) -> (found: bool)
    ensures
        found == opens(chars@, at as int),
{
    look(chars, at, 0, '(') || look(chars, at, 0, '[') || look(chars, at, 0, '{')
}

fn closes_at(chars: &Vec<char>, at: usize) -> (found: bool)
    ensures
        found == closes(chars@, at as int),
{
    look(chars, at, 0, ')') || look(chars, at, 0, ']') || look(chars, at, 0, '}')
}

fn break_at(chars: &Vec<char>, at: usize) -> (is: bool)
    requires
        at < chars.len(),
    ensures
        is == is_break(chars@, at as int),
{
    if !(look(chars, at, 0, 'b') && look(chars, at, 1, 'r') && look(chars, at, 2, 'e') && look(
        chars,
        at,
        3,
        'a',
    ) && look(chars, at, 4, 'k')) {
        return false;
    }
    let end = word_end_from(chars, at);
    proof {
        lemma_word_end(chars@, at as int);
    }
    end - at == 5 && match space_end_from(chars, end) {
        Some(start) => look(chars, start, 0, '\'') && !look(chars, start, 1, '\\') && look(
            chars,
            start,
            2,
            '\'',
        ),
        None => false,
    }
}

fn decimals_end_from(chars: &Vec<char>, from: usize) -> (end: usize)
    ensures
        end == decimals_end(chars@, from as int),
{
    let mut at = from;
    while at < chars.len() && (digit(chars[at]) || chars[at] == '.')
        invariant
            decimals_end(chars@, from as int) == decimals_end(chars@, at as int),
        decreases chars.len() - at,
    {
        at += 1;
    }
    at
}

fn field_at(chars: &Vec<char>, at: usize) -> (is: bool)
    requires
        at < chars.len(),
    ensures
        is == is_field(chars@, at as int),
{
    chars[at] == '.' && match space_end_from(chars, at + 1) {
        Some(start) => start < chars.len() && digit(chars[start]) && number_end_from(chars, start)
            != word_end_from(chars, start) && number_end_from(chars, start) > decimals_end_from(
            chars,
            start,
        ),
        None => false,
    }
}

fn division_at(chars: &Vec<char>, at: usize, part: Part) -> (is: bool)
    ensures
        is == is_division(chars@, at as int, part),
{
    part == Part::Length && starts_doc_block(chars, at) && block_end_from(chars, at).is_some()
}

fn macro_mark_at(chars: &Vec<char>, at: usize) -> (is: bool)
    requires
        at < chars.len(),
    ensures
        is == is_macro_mark(chars@, at as int),
{
    chars[at] == '!' && match space_end_from(chars, at + 1) {
        Some(start) => opens_at(chars, start),
        None => false,
    }
}

fn part_behind_at(chars: &Vec<char>, at: usize, part: Part, depth: usize) -> (behind: (Part, usize))
    requires
        at < chars.len(),
        depth <= at,
    ensures
        part_behind(chars@, at as int, part, depth as nat) == (behind.0, behind.1 as nat),
        behind.1 <= at + 1,
{
    match part {
        Part::Code => (part, depth),
        Part::Header => if chars[at] == '{' {
            (Part::Code, 0)
        } else if chars[at] == ';' {
            (Part::Length, 0)
        } else if macro_mark_at(chars, at) {
            (Part::Nested, 0)
        } else {
            (part, depth)
        },
        Part::Length | Part::Nested => if opens_at(chars, at) {
            (part, depth + 1)
        } else if !closes_at(chars, at) {
            (part, depth)
        } else if depth == 0 || (part == Part::Nested && depth == 1) {
            (Part::Header, 0)
        } else {
            (part, depth - 1)
        },
    }
}

fn is_plain_from(chars: &Vec<char>, from: usize, in_part: Part, open: usize) -> (plain: bool)
    requires
        open <= from <= chars.len(),
    ensures
        plain == plain_from(chars@, from as int, in_part, open as nat),
    decreases chars.len() - from,
{
    let mut at = from;
    let mut part = in_part;
    let mut depth: usize = open;
    while at < chars.len()
        invariant
            from <= at,
            depth <= at <= chars.len(),
            plain_from(chars@, from as int, in_part, open as nat) == plain_from(
                chars@,
                at as int,
                part,
                depth as nat,
            ),
        decreases chars.len() - at,
    {
        proof {
            lemma_space_end(chars@, at as int);
            lemma_token_end(chars@, at as int);
        }
        match space_end_from(chars, at) {
            None => {
                if blank(chars[at]) {
                    return has_plain_rest(chars, at);
                }
                at += 1;
            },
            Some(start) => {
                if start > at {
                    at = start;
                } else if starts_odd_byte(chars, at) {
                    return false;
                } else if part == Part::Length && (break_at(chars, at) || field_at(chars, at)) {
                    return has_plain_rest(chars, at);
                } else {
                    match token_end_from(chars, at) {
                        None => {
                            return has_plain_rest(chars, at);
                        },
                        Some(end) => {
                            if division_at(chars, at, part) && !is_plain_from(
                                chars,
                                at + 1,
                                part,
                                depth,
                            ) {
                                return false;
                            }
                            let behind = part_behind_at(chars, at, part, depth);
                            part = behind.0;
                            depth = behind.1;
                            at = end;
                        },
                    }
                }
            },
        }
    }
    true
}

/// Whether no byte literal among the tokens of an invocation starts with a character beyond
/// ASCII.
pub fn has_plain_byte_literals(text: &str) -> (plain: bool)
    ensures
        plain == plain_byte_literals(text@),
{
    let chars = characters(text);
    proof {
        lemma_space_end(chars@, 0);
    }
    match space_end_from(&chars, 0) {
        None => has_plain_rest(&chars, 0),
        Some(start) => if opens_at(&chars, start) {
            is_plain_from(&chars, start + 1, Part::Header, 0)
        } else {
            true
        },
    }
}

}
