//! The parts of a `cpp!` invocation.

use crate::sources::Span;
use vstd::prelude::*;

verus! {

/// `cpp_syn::Ty`, the Rust type that a closure returns. It is carried, never read.
#[verifier::external_type_specification]
#[verifier::external_body]
pub struct ExTy(cpp_syn::Ty);

/// A piece of C++ and the span that it was written at.
#[derive(Debug)]
pub struct Spanned {
    pub node: String,
    pub span: Span,
}

/// A variable that a closure captures: its name and its C++ type.
#[derive(Debug)]
pub struct Capture {
    pub mutable: bool,
    pub name: String,
    pub cpp: String,
}

/// The signature of a closure: what it captures, the Rust and the C++ type that it
/// returns, and its body with the layout taken out.
#[derive(Debug)]
pub struct ClosureSig {
    pub captures: Vec<Capture>,
    pub ret: cpp_syn::Ty,
    pub cpp: String,
    pub std_body: String,
}

/// A C++ closure: its signature and the body that is compiled.
#[derive(Debug)]
pub struct Closure {
    pub sig: ClosureSig,
    pub body: Spanned,
}

/// What a `cpp!` invocation holds: a closure, or a snippet for the top level.
#[derive(Debug)]
pub enum Macro {
    Closure(Closure),
    Lit(Spanned),
}

/// A macro invocation: the identifiers of the path of the macro, and the spans of the
/// token trees behind it.
#[derive(Debug)]
pub struct Mac {
    pub path: Vec<String>,
    pub tts: Vec<Span>,
}

pub struct SpannedView {
    pub node: Seq<char>,
    pub span: Span,
}

pub struct CaptureView {
    pub mutable: bool,
    pub name: Seq<char>,
    pub cpp: Seq<char>,
}

pub struct SigView {
    pub captures: Seq<CaptureView>,
    pub ret: cpp_syn::Ty,
    pub cpp: Seq<char>,
    pub std_body: Seq<char>,
}

pub struct ClosureView {
    pub sig: SigView,
    pub body: SpannedView,
}

pub enum MacroView {
    Closure(ClosureView),
    Lit(SpannedView),
}

impl View for Spanned {
    type V = SpannedView;

    open spec fn view(&self) -> SpannedView {
        SpannedView { node: self.node@, span: self.span }
    }
}

impl View for Capture {
    type V = CaptureView;

    open spec fn view(&self) -> CaptureView {
        CaptureView { mutable: self.mutable, name: self.name@, cpp: self.cpp@ }
    }
}

impl View for ClosureSig {
    type V = SigView;

    open spec fn view(&self) -> SigView {
        SigView {
            captures: self.captures@.map_values(|c: Capture| c@),
            ret: self.ret,
            cpp: self.cpp@,
            std_body: self.std_body@,
        }
    }
}

impl View for Closure {
    type V = ClosureView;

    open spec fn view(&self) -> ClosureView {
        ClosureView { sig: self.sig@, body: self.body@ }
    }
}

impl View for Macro {
    type V = MacroView;

    open spec fn view(&self) -> MacroView {
        match self {
            Macro::Closure(closure) => MacroView::Closure(closure@),
            Macro::Lit(code) => MacroView::Lit(code@),
        }
    }
}

}
