//! The text of a `cpp!` invocation, taken apart.

use crate::lexing::{plain_byte_literals, without_leading_space};
use crate::sources::Span;
use crate::syntax::{
    Capture, Closure, ClosureSig, ClosureView, Macro, MacroView, SigView, Spanned, SpannedView,
};
use cpp_common::parsing;
use cpp_common::{Capture as Captured, ClosureSig as ClosureSpec, Macro as Built};
use cpp_synom::IResult::{Done, Error as Failed};
use cpp_synom::ParseState;
use vstd::prelude::*;

verus! {

/// Why a macro invocation could not be taken in.
#[derive(Debug)]
pub enum MacroError {
    /// A `cpp!` invocation without any tokens.
    NoTokens,
    /// The tokens lie in no source file.
    NoSource(std::io::Error),
    /// The tokens are neither a closure nor a snippet.
    NotParsed,
    /// A closure or a snippet is there, and this text behind it.
    Trailing(String),
    /// The body of the closure or snippet has no range of the source text to itself.
    BadBody,
    /// The body lies in no source file.
    NoLocation(std::io::Error),
}

/// The kinds of `MacroError`.
pub enum Failure {
    NoTokens,
    NoSource,
    NotParsed,
    Trailing(Seq<char>),
    BadBody,
    NoLocation,
}

impl View for MacroError {
    type V = Failure;

    open spec fn view(&self) -> Failure {
        match self {
            MacroError::NoTokens => Failure::NoTokens,
            MacroError::NoSource(_) => Failure::NoSource,
            MacroError::NotParsed => Failure::NotParsed,
            MacroError::Trailing(rest) => Failure::Trailing(rest@),
            MacroError::BadBody => Failure::BadBody,
            MacroError::NoLocation(_) => Failure::NoLocation,
        }
    }
}

/// What `cpp_common::parsing::build_macro` makes of a text: of the closure at its start
/// the signature and the body, or of the snippet there the code, and the text that is
/// left; or nothing.
pub uninterp spec fn built_macro(text: Seq<char>) -> Option<
    (Option<SigView>, SpannedView, Seq<char>),
>;

/// What a text is as a whole, from what was built at its start and what is left behind
/// that: one closure or snippet with nothing behind it, or the reason why not.
pub open spec fn whole_macro(
    built: Option<MacroView>,
    left: Seq<char>,
) -> Result<MacroView, Failure> {
    match built {
        None => Err(Failure::NotParsed),
        Some(parsed) => if left.len() == 0 {
            Ok(parsed)
        } else {
            Err(Failure::Trailing(left))
        },
    }
}

/// The closure or the snippet that a text holds.
pub open spec fn parsed_macro(text: Seq<char>) -> Result<MacroView, Failure> {
    match built_macro(text) {
        None => whole_macro(None, Seq::empty()),
        Some((sig, code, rest)) => whole_macro(
            Some(
                match sig {
                    Some(sig) => MacroView::Closure(ClosureView { sig, body: code }),
                    None => MacroView::Lit(code),
                },
            ),
            without_leading_space(rest),
        ),
    }
}

/// `cpp_common::parsing::build_macro`: parses the closure or the snippet at the start of
/// the text, and returns the parts of it with the text behind it. It reads byte literals a
/// byte at a time, and panics on one that starts with a character beyond ASCII, so a text
/// with one among its tokens is left out. So is one that holds what looks like such a literal
/// behind a labelled `break`, a field with an exponent in its name or a comment for documentation
/// in the length of an array type, where the tokens do not tell how it reads on.
#[verifier::external_body]
pub(crate) fn build_macro(text: &str) -> (built: Option<
    (Option<ClosureSig>, Spanned, &str),
>)
    requires
        plain_byte_literals(text@),
    ensures
        match built {
            Some((sig, code, rest)) => built_macro(text@) == Some(
                (
                    match sig {
                        Some(sig) => Some(sig@),
                        None => None,
                    },
                    code@,
                    rest@,
                ),
            ),
            None => built_macro(text@) is None,
        },
{
    let (sig, code, rest) = match parsing::build_macro(ParseState::new(text)) {
        Done(rest, Built::Closure(c)) => (Some(c.sig), c.body, rest),
        Done(rest, Built::Lit(code)) => (None, code, rest),
        Failed => return None,
    };
    let own =
        |Captured { mutable, name, cpp }| Capture { mutable, name: name.to_string(), cpp };
    let sig = sig.map(|ClosureSpec { captures, ret, cpp, std_body }| {
        let captures = captures.into_iter().map(own).collect();
        ClosureSig { captures, ret, cpp, std_body }
    });
    let span = Span { lo: code.span.lo, hi: code.span.hi };
    Some((sig, Spanned { node: code.node, span }, rest.rest()))
}

/// `cpp_synom::space::skip_whitespace`: the text without the white space and the comments at
/// its start, or all of it where one of those comments does not end.
#[verifier::external_body]
pub(crate) fn skip_whitespace(text: &str) -> (rest: &str)
    ensures
        rest@ == without_leading_space(text@),
{
    cpp_synom::space::skip_whitespace(ParseState::new(text)).rest()
}

/// Accepts what was built from a text where nothing is left behind it.
pub fn expect_whole(built: Option<Macro>, left: &str) -> (parsed: Result<Macro, MacroError>)
    ensures
        match parsed {
            Ok(parsed) => built == Some(parsed) && left@.len() == 0,
            Err(error) => whole_macro(
                match built {
                    Some(parsed) => Some(parsed@),
                    None => None,
                },
                left@,
            ) == Err::<MacroView, Failure>(error@),
        },
{
    match built {
        None => Err(MacroError::NotParsed),
        Some(parsed) => if left.is_empty() {
            Ok(parsed)
        } else {
            Err(MacroError::Trailing(left.to_owned()))
        },
    }
}

/// Parses a text that holds one closure or snippet and nothing else.
pub fn parse_macro(text: &str) -> (parsed: Result<Macro, MacroError>)
    requires
        plain_byte_literals(text@),
    ensures
        match parsed {
            Ok(parsed) => parsed_macro(text@) == Ok::<MacroView, Failure>(parsed@),
            Err(error) => parsed_macro(text@) == Err::<MacroView, Failure>(error@),
        },
{
    match build_macro(text) {
        None => expect_whole(None, ""),
        Some((Some(sig), body, rest)) => expect_whole(
            Some(Macro::Closure(Closure { sig, body })),
            skip_whitespace(rest),
        ),
        Some((None, code, rest)) => expect_whole(Some(Macro::Lit(code)), skip_whitespace(rest)),
    }
}

}
