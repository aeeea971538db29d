//! The steps of a build. What a step asks for is done outside; what came of it decides
//! on the next.

use crate::artifacts::Artifact;
use crate::codegen::{
    gen_cpp_lib, gen_sizes_cpp, generated, INTERNAL_CPP_STRUCTS, SIZES_SCRIPT_MAIN,
};
use crate::config::{optional_text, Config, ConfigView, Input};
use crate::handle::{Handle, HandleView};
use crate::text::{contains, lossy, lossy_text, occurs, texts, warnings, warnln_impl};
use std::path::PathBuf;
use vstd::prelude::*;
use vstd::string::*;

verus! {

/// An argument of the compiler.
#[derive(Debug)]
pub enum Arg {
    Text(String),
    /// The path of an artifact.
    Path(Artifact),
    /// The path of an artifact, directly behind a text.
    Prefixed(String, Artifact),
}

pub enum ArgView {
    Text(Seq<char>),
    Path(Artifact),
    Prefixed(Seq<char>, Artifact),
}

impl View for Arg {
    type V = ArgView;

    open spec fn view(&self) -> ArgView {
        match self {
            Arg::Text(text) => ArgView::Text(text@),
            Arg::Path(path) => ArgView::Path(*path),
            Arg::Prefixed(pre, path) => ArgView::Prefixed(pre@, *path),
        }
    }
}

/// What the arguments in a list stand for.
pub open spec fn args_view(args: Seq<Arg>) -> Seq<ArgView> {
    Seq::new(args.len(), |i: int| args[i]@)
}

/// The arguments with which the compiler of a target makes the program that prints the
/// sizes.
pub open spec fn sizes_args(target: Seq<char>) -> Seq<ArgView> {
    if occurs("msvc"@, target) {
        seq![
            ArgView::Prefixed("/Fo"@, Artifact::SizesObject),
            ArgView::Path(Artifact::SizesSource),
            ArgView::Path(Artifact::MsvcLibrary),
            ArgView::Text("/link"@),
            ArgView::Prefixed("/OUT:"@, Artifact::SizesProgram),
            ArgView::Prefixed("/FDB:"@, Artifact::SizesDatabase),
        ]
    } else {
        seq![
            ArgView::Text("-o"@),
            ArgView::Path(Artifact::SizesProgram),
            ArgView::Path(Artifact::SizesSource),
            ArgView::Path(Artifact::Library),
        ]
    }
}

/// Adds an argument.
fn push_arg(cmd: &mut Vec<Arg>, arg: Arg)
    ensures
        args_view(final(cmd)@) == args_view(old(cmd)@).push(arg@),
{
    cmd.push(arg);
    proof {
        assert(args_view(cmd@) == args_view(old(cmd)@).push(arg@));
    }
}

/// Adds the path of an artifact to the arguments, directly behind `pre`.
pub fn msvc_path(cmd: &mut Vec<Arg>, pre: &str, path: Artifact)
    ensures
        args_view(final(cmd)@) == args_view(old(cmd)@).push(ArgView::Prefixed(pre@, path)),
{
    push_arg(cmd, Arg::Prefixed(pre.to_owned(), path));
}

/// The arguments with which the compiler of a target makes the program that prints the
/// sizes.
pub fn gen_sizes_exe(target: &str) -> (args: Vec<Arg>)
    ensures
        args_view(args@) == sizes_args(target@),
{
    let mut args: Vec<Arg> = Vec::new();
    if contains(target, "msvc") {
        msvc_path(&mut args, "/Fo", Artifact::SizesObject);
        push_arg(&mut args, Arg::Path(Artifact::SizesSource));
        push_arg(&mut args, Arg::Path(Artifact::MsvcLibrary));
        push_arg(&mut args, Arg::Text("/link".to_owned()));
        msvc_path(&mut args, "/OUT:", Artifact::SizesProgram);
        msvc_path(&mut args, "/FDB:", Artifact::SizesDatabase);
    } else {
        push_arg(&mut args, Arg::Text("-o".to_owned()));
        push_arg(&mut args, Arg::Path(Artifact::SizesProgram));
        push_arg(&mut args, Arg::Path(Artifact::SizesSource));
        push_arg(&mut args, Arg::Path(Artifact::Library));
    }
    proof {
        assert(args_view(args@) == sizes_args(target@));
    }
    args
}

/// The message of a build whose crate cannot be parsed stands around the reason.
pub const PARSE_ERROR_HEAD: &'static str = r#"-- rust-cpp parse error --

There was an error parsing the crate for the rust-cpp build script:

"#;

pub const PARSE_ERROR_TAIL: &'static str = r#"

In order to provide a better error message, the build script will exit
successfully, such that rustc can provide an error message."#;

pub const REMOVE_ERROR: &'static str = r#"
-- rust-cpp fatal error --

Failed to remove existing build artifacts from output directory."#;

pub const CREATE_ERROR: &'static str = r#"
-- rust-cpp fatal error --

Failed to create output object directory."#;

pub const LIBRARY_ERROR: &'static str = "Unable to generate temporary C++ file";

pub const SIZES_ERROR: &'static str = "Could not create cpp for computing sizes";

pub const COMPILER_ERROR: &'static str = "Unable to execute compiler to build sizes script";

pub const STATUS_ERROR: &'static str =
    "Compiler for building sizes exited with non-zero status code";

pub const WRITE_ERROR: &'static str = "called `Result::unwrap()` on an `Err` value";

/// How far a build has come: what it waits for.
#[derive(Debug)]
pub enum Step {
    /// Whether the directory of an earlier build is there. The crate root is kept for later.
    Cleaning(PathBuf),
    /// That directory to be removed.
    Removing(PathBuf),
    /// A new one to be created.
    Creating(PathBuf),
    /// The crate to be parsed and walked.
    Parsing,
    /// The source of the library to be written.
    WritingLibrary,
    /// The library to be compiled.
    Compiling,
    /// The source of the program that prints the sizes to be written.
    WritingSizes,
    /// The compiler to make that program.
    RunningCompiler,
    /// Nothing.
    Finished,
}

/// What a build asks for.
#[derive(Debug)]
pub enum Action {
    /// Find out whether `Artifact::Directory` is a directory.
    CheckDirectory,
    /// Remove it, with all that it holds.
    RemoveDirectory,
    /// Create it.
    CreateDirectory,
    /// Parse the crate with this root, and visit its macro invocations.
    ParseCrate(PathBuf),
    /// Create the file and write the text to it.
    WriteFile(Artifact, String),
    /// Compile the files of the configuration to `LIB_NAME`.
    CompileLibrary,
    /// Run the compiler of the configuration with these arguments more.
    RunCompiler(Vec<Arg>),
    /// Print the lines, and then panic where there is a message to panic with.
    Finish(Vec<String>, Option<String>),
}

pub enum ActionView {
    CheckDirectory,
    RemoveDirectory,
    CreateDirectory,
    ParseCrate(PathBuf),
    WriteFile(Artifact, Seq<char>),
    CompileLibrary,
    RunCompiler(Seq<ArgView>),
    Finish(Seq<Seq<char>>, Option<Seq<char>>),
}

impl View for Action {
    type V = ActionView;

    open spec fn view(&self) -> ActionView {
        match self {
            Action::CheckDirectory => ActionView::CheckDirectory,
            Action::RemoveDirectory => ActionView::RemoveDirectory,
            Action::CreateDirectory => ActionView::CreateDirectory,
            Action::ParseCrate(root) => ActionView::ParseCrate(*root),
            Action::WriteFile(file, text) => ActionView::WriteFile(*file, text@),
            Action::CompileLibrary => ActionView::CompileLibrary,
            Action::RunCompiler(args) => ActionView::RunCompiler(args_view(args@)),
            Action::Finish(lines, failure) => ActionView::Finish(
                texts(lines@),
                optional_text(*failure),
            ),
        }
    }
}

/// What came of an action.
pub enum Event<'a, 'b> {
    DirectoryChecked(bool),
    DirectoryRemoved,
    DirectoryCreated,
    /// The crate was parsed, and this was collected from it.
    CrateParsed(&'a Handle<'b>),
    /// The crate could not be parsed, for this reason.
    ParseFailed(String),
    /// The source of the library was written.
    LibraryWritten,
    LibraryCompiled,
    /// The source of the program was written. The target of the build is this.
    SizesWritten(String),
    /// The compiler ran: the bytes that it printed to its output and to its error output, and
    /// whether it succeeded.
    CompilerRan(Vec<u8>, Vec<u8>, bool),
    /// The action could not be done, with this error.
    Failed(String),
    /// The file was created but not written, with this error.
    WriteFailed(String),
}

pub enum EventView {
    DirectoryChecked(bool),
    DirectoryRemoved,
    DirectoryCreated,
    CrateParsed(HandleView),
    ParseFailed(Seq<char>),
    LibraryWritten,
    LibraryCompiled,
    SizesWritten(Seq<char>),
    CompilerRan(Seq<u8>, Seq<u8>, bool),
    Failed(Seq<char>),
    WriteFailed(Seq<char>),
}

impl<'a, 'b> View for Event<'a, 'b> {
    type V = EventView;

    open spec fn view(&self) -> EventView {
        match self {
            Event::DirectoryChecked(exists) => EventView::DirectoryChecked(*exists),
            Event::DirectoryRemoved => EventView::DirectoryRemoved,
            Event::DirectoryCreated => EventView::DirectoryCreated,
            Event::CrateParsed(handle) => EventView::CrateParsed(handle@),
            Event::ParseFailed(reason) => EventView::ParseFailed(reason@),
            Event::LibraryWritten => EventView::LibraryWritten,
            Event::LibraryCompiled => EventView::LibraryCompiled,
            Event::SizesWritten(target) => EventView::SizesWritten(target@),
            Event::CompilerRan(out, err, success) => EventView::CompilerRan(out@, err@, *success),
            Event::Failed(error) => EventView::Failed(error@),
            Event::WriteFailed(error) => EventView::WriteFailed(error@),
        }
    }
}

/// What is said of a step whose action could not be done, where that ends the build.
pub open spec fn failure_of(step: Step) -> Option<Seq<char>> {
    match step {
        Step::Removing(_) => Some(REMOVE_ERROR@),
        Step::Creating(_) => Some(CREATE_ERROR@),
        Step::WritingLibrary => Some(LIBRARY_ERROR@),
        Step::WritingSizes => Some(SIZES_ERROR@),
        Step::RunningCompiler => Some(COMPILER_ERROR@),
        _ => None,
    }
}

/// The end of a build that prints nothing and panics with an error.
pub open spec fn panicking(message: Seq<char>, error: Seq<char>) -> ActionView {
    ActionView::Finish(Seq::empty(), Some(message + ": "@ + error))
}

/// The warnings of a build whose crate cannot be parsed.
pub open spec fn parse_warnings(reason: Seq<char>) -> Seq<Seq<char>> {
    warnings(PARSE_ERROR_HEAD@ + reason + PARSE_ERROR_TAIL@)
}

/// The end of a build whose compiler ran: what that printed, its errors as warnings, and
/// a panic unless it succeeded.
pub open spec fn ran(out: Seq<char>, err: Seq<char>, success: bool) -> ActionView {
    ActionView::Finish(
        seq![out] + warnings(err),
        if success {
            None
        } else {
            Some(STATUS_ERROR@)
        },
    )
}

/// The configuration, the step and the action that follow on an event, or nothing where
/// the step does not wait for such an event. `lib` is the library that is generated where
/// the event is that the crate was parsed.
pub open spec fn next(
    config: ConfigView,
    step: Step,
    event: EventView,
    lib: Seq<char>,
) -> Option<(ConfigView, Step, ActionView)> {
    match (step, event) {
        (Step::Cleaning(root), EventView::DirectoryChecked(exists)) => if exists {
            Some((config, Step::Removing(root), ActionView::RemoveDirectory))
        } else {
            Some((config, Step::Creating(root), ActionView::CreateDirectory))
        },
        (Step::Removing(root), EventView::DirectoryRemoved) => Some(
            (config, Step::Creating(root), ActionView::CreateDirectory),
        ),
        (Step::Creating(root), EventView::DirectoryCreated) => Some(
            (config, Step::Parsing, ActionView::ParseCrate(root)),
        ),
        (Step::Parsing, EventView::ParseFailed(reason)) => Some(
            (config, Step::Finished, ActionView::Finish(parse_warnings(reason), None)),
        ),
        (Step::Parsing, EventView::CrateParsed(_)) => Some(
            (
                config,
                Step::WritingLibrary,
                ActionView::WriteFile(Artifact::LibrarySource, lib),
            ),
        ),
        (Step::WritingLibrary, EventView::LibraryWritten) => Some(
            (
                config.with_file(Input::Generated(Artifact::LibrarySource)),
                Step::Compiling,
                ActionView::CompileLibrary,
            ),
        ),
        (Step::Compiling, EventView::LibraryCompiled) => Some(
            (
                config,
                Step::WritingSizes,
                ActionView::WriteFile(
                    Artifact::SizesSource,
                    INTERNAL_CPP_STRUCTS@ + SIZES_SCRIPT_MAIN@,
                ),
            ),
        ),
        (Step::WritingSizes, EventView::SizesWritten(target)) => Some(
            (config, Step::RunningCompiler, ActionView::RunCompiler(sizes_args(target))),
        ),
        (Step::RunningCompiler, EventView::CompilerRan(out, err, success)) => Some(
            (config, Step::Finished, ran(lossy(out), lossy(err), success)),
        ),
        (Step::WritingLibrary, EventView::WriteFailed(error)) => Some(
            (config, Step::Finished, panicking(WRITE_ERROR@, error)),
        ),
        (Step::WritingSizes, EventView::WriteFailed(error)) => Some(
            (config, Step::Finished, panicking(WRITE_ERROR@, error)),
        ),
        (step, EventView::Failed(error)) => match failure_of(step) {
            Some(message) => Some((config, Step::Finished, panicking(message, error))),
            None => None,
        },
        _ => None,
    }
}

/// Whether `lib` is the library for the crate, where the event is that it was parsed.
pub open spec fn generates(step: Step, event: EventView, lib: Seq<char>) -> bool {
    match (step, event) {
        (Step::Parsing, EventView::CrateParsed(collected)) => generated(collected, lib),
        _ => true,
    }
}

/// The end of a build that prints nothing and panics with an error.
fn gen_panic(message: &str, error: &str) -> (action: Action)
    ensures
        action@ == panicking(message@, error@),
{
    let mut text = message.to_owned();
    text.append(": ");
    text.append(error);
    let lines: Vec<String> = Vec::new();
    proof {
        assert(texts(lines@) == Seq::<Seq<char>>::empty());
    }
    Action::Finish(lines, Some(text))
}

/// The end of a build whose crate cannot be parsed.
fn gen_parse_warnings(reason: &str) -> (action: Action)
    ensures
        action@ == ActionView::Finish(parse_warnings(reason@), None),
{
    let mut text = PARSE_ERROR_HEAD.to_owned();
    text.append(reason);
    text.append(PARSE_ERROR_TAIL);
    Action::Finish(warnln_impl(text.as_str()), None)
}

/// The end of a build whose compiler ran.
pub fn gen_ran(out: String, err: &str, success: bool) -> (action: Action)
    ensures
        action@ == ran(out@, err@, success),
{
    let mut lines: Vec<String> = Vec::new();
    lines.push(out);
    let mut shown = warnln_impl(err);
    let ghost warned = texts(shown@);
    lines.append(&mut shown);
    proof {
        assert(texts(lines@) == seq![out@] + warned);
    }
    let failure = if success {
        None
    } else {
        Some(STATUS_ERROR.to_owned())
    };
    Action::Finish(lines, failure)
}

impl Config {
    /// Extracts `cpp` declarations from the passed-in crate root, and builds
    /// the associated static library to be linked in to the final binary.
    ///
    /// This is the first step, which `advance` leads on from. It does not
    /// perform rust codegen - that is performed by `cpp` and `cpp_macros`,
    /// which perform the actual procedural macro expansion.
    ///
    /// This method may technically be called more than once for ergonomic
    /// reasons, but that usually won't do what you want. Use a different
    /// `Config` object each time you want to build a crate.
    pub fn build(&mut self, crate_root: PathBuf) -> (first: (Step, Action))
        ensures
            first.0 == Step::Cleaning(crate_root),
            first.1@ == ActionView::CheckDirectory,
            *final(self) == *old(self),
    {
        (Step::Cleaning(crate_root), Action::CheckDirectory)
    }

    /// The step and the action that follow on an event, or nothing where the step does not
    /// wait for such an event.
    pub fn advance(&mut self, step: Step, event: Event) -> (following: Option<(Step, Action)>)
        ensures
            exists|lib: Seq<char>|
                #![trigger next(old(self)@, step, event@, lib)]
                {
                    &&& generates(step, event@, lib)
                    &&& match next(old(self)@, step, event@, lib) {
                        Some((config, step, action)) => {
                            &&& following matches Some((s, a)) && s == step && a@ == action
                            &&& final(self)@ == config
                        },
                        None => following is None && final(self)@ == old(self)@,
                    }
                },
    {
        let ghost at = step;
        let ghost seen = event@;
        proof {
            // Any text will do where none is generated.
            assert(next(self@, at, seen, Seq::empty()) == next(self@, at, seen, Seq::empty()));
        }
        match (step, event) {
            (Step::Cleaning(root), Event::DirectoryChecked(exists)) => if exists {
                Some((Step::Removing(root), Action::RemoveDirectory))
            } else {
                Some((Step::Creating(root), Action::CreateDirectory))
            },
            (Step::Removing(root), Event::DirectoryRemoved) => {
                Some((Step::Creating(root), Action::CreateDirectory))
            },
            (Step::Creating(root), Event::DirectoryCreated) => {
                Some((Step::Parsing, Action::ParseCrate(root)))
            },
            (Step::Parsing, Event::ParseFailed(reason)) => {
                Some((Step::Finished, gen_parse_warnings(reason.as_str())))
            },
            (Step::Parsing, Event::CrateParsed(handle)) => {
                let lib = gen_cpp_lib(handle);
                proof {
                    assert(next(self@, at, seen, lib@) is Some);
                }
                Some((Step::WritingLibrary, Action::WriteFile(Artifact::LibrarySource, lib)))
            },
            (Step::WritingLibrary, Event::LibraryWritten) => {
                self.files.push(Input::Generated(Artifact::LibrarySource));
                Some((Step::Compiling, Action::CompileLibrary))
            },
            (Step::Compiling, Event::LibraryCompiled) => {
                let text = gen_sizes_cpp();
                Some((Step::WritingSizes, Action::WriteFile(Artifact::SizesSource, text)))
            },
            (Step::WritingSizes, Event::SizesWritten(target)) => {
                let args = gen_sizes_exe(target.as_str());
                Some((Step::RunningCompiler, Action::RunCompiler(args)))
            },
            (Step::RunningCompiler, Event::CompilerRan(out, err, success)) => {
                let out = lossy_text(&out);
                let err = lossy_text(&err);
                Some((Step::Finished, gen_ran(out, err.as_str(), success)))
            },
            (Step::WritingLibrary, Event::WriteFailed(error)) => {
                Some((Step::Finished, gen_panic(WRITE_ERROR, error.as_str())))
            },
            (Step::WritingSizes, Event::WriteFailed(error)) => {
                Some((Step::Finished, gen_panic(WRITE_ERROR, error.as_str())))
            },
            (step, Event::Failed(error)) => {
                let message = match step {
                    Step::Removing(_) => REMOVE_ERROR,
                    Step::Creating(_) => CREATE_ERROR,
                    Step::WritingLibrary => LIBRARY_ERROR,
                    Step::WritingSizes => SIZES_ERROR,
                    Step::RunningCompiler => COMPILER_ERROR,
                    _ => {
                        return None;
                    },
                };
                Some((Step::Finished, gen_panic(message, error.as_str())))
            },
            _ => None,
        }
    }
}

}
