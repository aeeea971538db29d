//! Text as the build script writes it: decimal numbers, joined lists, lines and
//! the warnings that cargo shows.

use vstd::prelude::*;
use vstd::string::*;
use vstd::utf8::*;

verus! {

/// What cargo reads, at the start of a line of output, as a warning to show.
pub const WARNING_PREFIX: &'static str = "cargo:warning=";

/// The texts that a list of strings holds.
pub open spec fn texts(list: Seq<String>) -> Seq<Seq<char>> {
    Seq::new(list.len(), |i: int| list[i]@)
}

/// The decimal digit for a number below ten.
pub open spec fn digit(d: nat) -> char {
    ('0' as int + d) as char
}

/// A number in decimal, without leading zeros.
pub open spec fn decimal(n: nat) -> Seq<char>
    decreases n,
{
    if n < 10 {
        seq![digit(n)]
    } else {
        decimal(n / 10).push(digit(n % 10))
    }
}

/// `n` blanks.
pub open spec fn blanks(n: nat) -> Seq<char> {
    Seq::new(n, |i: int| ' ')
}

/// The parts in order, with `sep` between neighbours.
pub open spec fn joined(parts: Seq<Seq<char>>, sep: Seq<char>) -> Seq<char>
    decreases parts.len(),
{
    if parts.len() == 0 {
        Seq::empty()
    } else if parts.len() == 1 {
        parts[0]
    } else {
        joined(parts.drop_last(), sep) + sep + parts.last()
    }
}

/// Whether `pattern` occurs in `text`.
pub open spec fn occurs(pattern: Seq<char>, text: Seq<char>) -> bool {
    exists|i: int|
        0 <= i && i + pattern.len() <= text.len() && #[trigger] text.subrange(
            i,
            i + pattern.len(),
        ) == pattern
}

/// The position of the first line feed at or after `from`, or the length of the
/// text where there is none.
pub open spec fn line_end(text: Seq<char>, from: int) -> int
    decreases text.len() - from,
{
    if from >= text.len() {
        text.len() as int
    } else if text[from] == '\n' {
        from
    } else {
        line_end(text, from + 1)
    }
}

/// The first line of a text without its ending: a line feed, or a carriage return
/// and a line feed.
pub open spec fn first_line(text: Seq<char>) -> Seq<char> {
    let end = line_end(text, 0);
    if end < text.len() && end > 0 && text[end - 1] == '\r' {
        text.take(end - 1)
    } else {
        text.take(end)
    }
}

/// What follows the first line and its ending.
pub open spec fn after_first_line(text: Seq<char>) -> Seq<char> {
    let end = line_end(text, 0);
    if end < text.len() {
        text.skip(end + 1)
    } else {
        Seq::empty()
    }
}

/// The lines of a text. The ending of the last line is optional.
pub open spec fn lines(text: Seq<char>) -> Seq<Seq<char>>
    decreases text.len(),
    via lines_decreases
{
    if text.len() == 0 {
        Seq::empty()
    } else {
        seq![first_line(text)] + lines(after_first_line(text))
    }
}

#[via_fn]
proof fn lines_decreases(text: Seq<char>) {
    lemma_line_end(text, 0);
}

/// A text as warnings for cargo, one for each line.
pub open spec fn warnings(text: Seq<char>) -> Seq<Seq<char>> {
    lines(text).map_values(|line: Seq<char>| WARNING_PREFIX@ + line)
}

/// `line_end` stays within the text, stops at a line feed or at the end, and passes
/// none.
pub proof fn lemma_line_end(text: Seq<char>, from: int)
    requires
        0 <= from <= text.len(),
    ensures
        from <= line_end(text, from) <= text.len(),
        line_end(text, from) < text.len() ==> text[line_end(text, from)] == '\n',
        forall|i: int| from <= i < line_end(text, from) ==> text[i] != '\n',
    decreases text.len() - from,
{
    if from < text.len() && text[from] != '\n' {
        lemma_line_end(text, from + 1);
    }
}

/// The text that `String::from_utf8_lossy` makes of bytes.
pub uninterp spec fn lossy(bytes: Seq<u8>) -> Seq<char>;

/// `String::from_utf8_lossy`: the text that the bytes are in UTF-8. Where they are none, what it
/// puts in place of the invalid bytes depends on the bytes alone, and is left open.
#[verifier::external_body]
pub(crate) fn lossy_text(bytes: &Vec<u8>) -> (text: String)
    ensures
        text@ == lossy(bytes@),
        valid_utf8(bytes@) ==> text@ == decode_utf8(bytes@),
{
    String::from_utf8_lossy(bytes).into_owned()
}

/// The characters of a string.
pub(crate) fn characters(text: &str) -> (chars: Vec<char>)
    ensures
        chars@ == text@,
{
    let mut chars: Vec<char> = Vec::new();
    for c in it: text.chars()
        invariant
            chars@ == it.seq().take(it.index()),
            it.seq() == text@,
    {
        chars.push(c);
    }
    chars
}

/// The digit of a number below ten, as a text.
fn digit_text(d: u64) -> (text: &'static str)
    requires
        d < 10,
    ensures
        text@ == seq![digit(d as nat)],
{
    proof {
        reveal_strlit("0");
        reveal_strlit("1");
        reveal_strlit("2");
        reveal_strlit("3");
        reveal_strlit("4");
        reveal_strlit("5");
        reveal_strlit("6");
        reveal_strlit("7");
        reveal_strlit("8");
        reveal_strlit("9");
    }
    if d == 0 {
        "0"
    } else if d == 1 {
        "1"
    } else if d == 2 {
        "2"
    } else if d == 3 {
        "3"
    } else if d == 4 {
        "4"
    } else if d == 5 {
        "5"
    } else if d == 6 {
        "6"
    } else if d == 7 {
        "7"
    } else if d == 8 {
        "8"
    } else {
        "9"
    }
}

/// A number in decimal.
pub fn decimal_text(n: u64) -> (text: String)
    ensures
        text@ == decimal(n as nat),
    decreases n,
{
    if n < 10 {
        digit_text(n).to_owned()
    } else {
        let mut text = decimal_text(n / 10);
        let last = digit_text(n % 10);
        text.append(last);
        text
    }
}

/// Appends `n` blanks.
pub fn append_blanks(text: &mut String, n: usize)
    ensures
        final(text)@ == old(text)@ + blanks(n as nat),
{
    proof {
        reveal_strlit(" ");
    }
    for i in 0..n
        invariant
            text@ == old(text)@ + blanks(i as nat),
            " "@ == seq![' '],
    {
        text.append(" ");
    }
}

/// Joins the parts with `sep` between neighbours.
pub fn join(parts: &Vec<String>, sep: &str) -> (text: String)
    ensures
        text@ == joined(texts(parts@), sep@),
{
    let mut text = String::new();
    for i in 0..parts.len()
        invariant
            text@ == joined(texts(parts@).take(i as int), sep@),
    {
        proof {
            let shown = texts(parts@).take(i + 1);
            assert(shown.drop_last() == texts(parts@).take(i as int));
            assert(shown.last() == parts[i as int]@);
        }
        if i > 0 {
            text.append(sep);
        }
        text.append(parts[i].as_str());
    }
    proof {
        assert(texts(parts@).take(parts.len() as int) == texts(parts@));
    }
    text
}

/// Whether `pattern` occurs in `text`.
pub fn contains(text: &str, pattern: &str) -> (found: bool)
    ensures
        found == occurs(pattern@, text@),
{
    let hay = characters(text);
    let needle = characters(pattern);
    if needle.len() > hay.len() {
        return false;
    }
    let last: usize = hay.len() - needle.len();
    let mut i: usize = 0;
    loop
        invariant
            hay@ == text@,
            needle@ == pattern@,
            i <= last,
            last + needle.len() == hay.len(),
            forall|j: int|
                0 <= j < i ==> #[trigger] text@.subrange(j, j + pattern@.len()) != pattern@,
        decreases last - i,
    {
        let mut n: usize = 0;
        while n < needle.len() && hay[i + n] == needle[n]
            invariant
                hay@ == text@,
                needle@ == pattern@,
                i + needle.len() <= hay.len(),
                n <= needle.len(),
                text@.subrange(i as int, i + n) == pattern@.take(n as int),
            decreases needle.len() - n,
        {
            proof {
                assert(text@.subrange(i as int, i + n + 1) == text@.subrange(
                    i as int,
                    i + n,
                ).push(text@[i + n]));
                assert(pattern@.take(n + 1) == pattern@.take(n as int).push(pattern@[n as int]));
            }
            n += 1;
        }
        if n == needle.len() {
            proof {
                assert(pattern@.take(n as int) == pattern@);
            }
            return true;
        }
        proof {
            assert(text@.subrange(i as int, i + pattern@.len())[n as int] != pattern@[n as int]);
        }
        if i == last {
            return false;
        }
        i += 1;
    }
}

/// The warnings that show a text, a line of output for each of its lines.
pub fn warnln_impl(a: &str) -> (out: Vec<String>)
    ensures
        texts(out@) == warnings(a@),
{
    let chars = characters(a);
    let len = chars.len();
    let mut out: Vec<String> = Vec::new();
    let mut start: usize = 0;
    proof {
        assert(a@.skip(0) == a@);
    }
    while start < len
        invariant
            chars@ == a@,
            len == a@.len(),
            start <= len,
            texts(out@) + warnings(a@.skip(start as int)) == warnings(a@),
        decreases len - start,
    {
        let ghost rest = a@.skip(start as int);
        let mut end = start;
        proof {
            lemma_line_end(rest, 0);
        }
        while end < len && chars[end] != '\n'
            invariant
                chars@ == a@,
                len == a@.len(),
                start <= end <= len,
                rest == a@.skip(start as int),
                line_end(rest, 0) == line_end(rest, end - start),
            decreases len - end,
        {
            end += 1;
        }
        let terminated = end < len;
        let stop = if terminated && end > start && chars[end - 1] == '\r' {
            end - 1
        } else {
            end
        };
        let mut line = WARNING_PREFIX.to_owned();
        line.append(a.substring_char(start, stop));
        let ghost before = texts(out@);
        out.push(line);
        start = if terminated {
            end + 1
        } else {
            len
        };
        proof {
            assert(line_end(rest, 0) == end - (a@.len() - rest.len()));
            assert(first_line(rest) == a@.subrange(a@.len() - rest.len(), stop as int));
            assert(after_first_line(rest) == a@.skip(start as int));
            assert(texts(out@) == before.push(WARNING_PREFIX@ + first_line(rest)));
            assert(warnings(rest) == seq![WARNING_PREFIX@ + first_line(rest)] + warnings(
                after_first_line(rest),
            ));
        }
    }
    proof {
        assert(a@.skip(len as int) == Seq::<char>::empty());
        assert(warnings(Seq::<char>::empty()) == Seq::<Seq<char>>::empty());
    }
    out
}

}
