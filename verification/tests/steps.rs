use cpp_build::artifacts::Artifact;
use cpp_build::build;
use cpp_build::codegen::{gen_cpp_lib, gen_sizes_cpp};
use cpp_build::config::{Config, Input};
use cpp_build::handle::Handle;
use cpp_build::steps::{gen_ran, gen_sizes_exe, msvc_path, Action, Arg, Event, Step};
use cpp_synmap::SourceMap;
use std::path::PathBuf;

fn shown(args: &[Arg]) -> Vec<String> {
    args.iter()
        .map(|arg| match arg {
            Arg::Text(text) => text.clone(),
            Arg::Path(path) => format!("<{}>", path.name()),
            Arg::Prefixed(pre, path) => format!("{}<{}>", pre, path.name()),
        })
        .collect()
}

fn failure(following: Option<(Step, Action)>) -> String {
    match following {
        Some((Step::Finished, Action::Finish(lines, Some(message)))) => {
            assert!(lines.is_empty());
            message
        }
        other => panic!("{:?}", other),
    }
}

#[test]
fn artifacts_have_their_places() {
    assert_eq!(Artifact::Directory.name(), "rust_cpp");
    assert_eq!(Artifact::Library.name(), "librust_cpp_generated.a");
    assert_eq!(Artifact::MsvcLibrary.name(), "rust_cpp_generated.lib");
    assert_eq!(Artifact::LibrarySource.name(), "cpp_closures.cpp");
    assert_eq!(Artifact::SizesSource.name(), "sizes.cpp");
    assert_eq!(Artifact::SizesProgram.name(), "print_sizes");
    assert_eq!(Artifact::SizesObject.name(), "sizes.obj");
    assert_eq!(Artifact::SizesDatabase.name(), "sizes.pdb");
    assert!(Artifact::Directory.in_out_dir());
    assert!(Artifact::Library.in_out_dir());
    assert!(Artifact::MsvcLibrary.in_out_dir());
    assert!(!Artifact::LibrarySource.in_out_dir());
    assert!(!Artifact::SizesSource.in_out_dir());
    assert!(!Artifact::SizesProgram.in_out_dir());
    assert!(!Artifact::SizesObject.in_out_dir());
    assert!(!Artifact::SizesDatabase.in_out_dir());
}

#[test]
fn paths_may_have_a_prefix() {
    let mut args = vec![Arg::Text("x".to_string())];
    msvc_path(&mut args, "/Fo", Artifact::SizesObject);
    assert_eq!(shown(&args), ["x", "/Fo<sizes.obj>"]);
}

#[test]
fn each_family_of_compilers_has_its_arguments() {
    assert_eq!(
        shown(&gen_sizes_exe("x86_64-unknown-linux-gnu")),
        ["-o", "<print_sizes>", "<sizes.cpp>", "<librust_cpp_generated.a>"]
    );
    assert_eq!(
        shown(&gen_sizes_exe("i686-pc-windows-msvc")),
        [
            "/Fo<sizes.obj>",
            "<sizes.cpp>",
            "<rust_cpp_generated.lib>",
            "/link",
            "/OUT:<print_sizes>",
            "/FDB:<sizes.pdb>",
        ]
    );
}

#[test]
fn a_build_on_which_everything_succeeds() {
    let sm = SourceMap::new();
    let handle = Handle::new(&sm);
    let (mut config, step, action) = build(PathBuf::from("src/lib.rs"));
    assert!(matches!(action, Action::CheckDirectory));
    config.file(PathBuf::from("own.cpp"));
    let (step, action) = config.advance(step, Event::DirectoryChecked(true)).unwrap();
    assert!(matches!(action, Action::RemoveDirectory));
    let (step, action) = config.advance(step, Event::DirectoryRemoved).unwrap();
    assert!(matches!(action, Action::CreateDirectory));
    let (step, action) = config.advance(step, Event::DirectoryCreated).unwrap();
    match action {
        Action::ParseCrate(root) => assert_eq!(root, PathBuf::from("src/lib.rs")),
        other => panic!("{:?}", other),
    }
    let (step, action) = config.advance(step, Event::CrateParsed(&handle)).unwrap();
    match action {
        Action::WriteFile(file, text) => {
            assert_eq!(file, Artifact::LibrarySource);
            assert_eq!(text, gen_cpp_lib(&handle));
        }
        other => panic!("{:?}", other),
    }
    let (step, action) = config.advance(step, Event::LibraryWritten).unwrap();
    assert!(matches!(action, Action::CompileLibrary));
    assert_eq!(config.files.len(), 2);
    assert!(matches!(&config.files[0], Input::Path(path) if path == &PathBuf::from("own.cpp")));
    assert!(matches!(config.files[1], Input::Generated(Artifact::LibrarySource)));
    let (step, action) = config.advance(step, Event::LibraryCompiled).unwrap();
    match action {
        Action::WriteFile(file, text) => {
            assert_eq!(file, Artifact::SizesSource);
            assert_eq!(text, gen_sizes_cpp());
        }
        other => panic!("{:?}", other),
    }
    let target = "x86_64-unknown-linux-gnu".to_string();
    let (step, action) = config.advance(step, Event::SizesWritten(target)).unwrap();
    match action {
        Action::RunCompiler(args) => assert_eq!(args.len(), 4),
        other => panic!("{:?}", other),
    }
    let ran = Event::CompilerRan(b"out\xff".to_vec(), "w\u{e9}1\nw2".as_bytes().to_vec(), true);
    let (step, action) = config.advance(step, ran).unwrap();
    match action {
        Action::Finish(lines, failure) => {
            assert_eq!(lines, ["out\u{fffd}", "cargo:warning=w\u{e9}1", "cargo:warning=w2"]);
            assert_eq!(failure, None);
        }
        other => panic!("{:?}", other),
    }
    assert!(matches!(step, Step::Finished));
    assert!(config.advance(step, Event::DirectoryCreated).is_none());
}

#[test]
fn a_build_without_earlier_artifacts_removes_nothing() {
    let mut config = Config::new();
    let (step, _) = config.build(PathBuf::from("r"));
    let (step, action) = config.advance(step, Event::DirectoryChecked(false)).unwrap();
    assert!(matches!(step, Step::Creating(_)));
    assert!(matches!(action, Action::CreateDirectory));
}

#[test]
fn a_crate_that_cannot_be_parsed_is_no_failure() {
    let mut config = Config::new();
    match config.advance(Step::Parsing, Event::ParseFailed("no such file".to_string())) {
        Some((Step::Finished, Action::Finish(lines, failure))) => {
            assert_eq!(failure, None);
            assert_eq!(
                lines,
                [
                    "cargo:warning=-- rust-cpp parse error --",
                    "cargo:warning=",
                    "cargo:warning=There was an error parsing the crate for the rust-cpp build script:",
                    "cargo:warning=",
                    "cargo:warning=no such file",
                    "cargo:warning=",
                    "cargo:warning=In order to provide a better error message, the build script will exit",
                    "cargo:warning=successfully, such that rustc can provide an error message.",
                ]
            );
        }
        other => panic!("{:?}", other),
    }
    assert!(config.files.is_empty());
}

#[test]
fn a_compiler_that_fails_fails_the_build() {
    let mut config = Config::new();
    let ran = Event::CompilerRan(vec![], b"error: x\n".to_vec(), false);
    match config.advance(Step::RunningCompiler, ran) {
        Some((Step::Finished, Action::Finish(lines, Some(message)))) => {
            assert_eq!(lines, ["", "cargo:warning=error: x"]);
            assert_eq!(message, "Compiler for building sizes exited with non-zero status code");
        }
        other => panic!("{:?}", other),
    }
}

#[test]
fn what_cannot_be_done_fails_the_build() {
    let mut config = Config::new();
    let error = || Event::Failed("E".to_string());
    assert_eq!(
        failure(config.advance(Step::Removing(PathBuf::from("r")), error())),
        "\n-- rust-cpp fatal error --\n\nFailed to remove existing build artifacts from output directory.: E"
    );
    assert_eq!(
        failure(config.advance(Step::Creating(PathBuf::from("r")), error())),
        "\n-- rust-cpp fatal error --\n\nFailed to create output object directory.: E"
    );
    assert_eq!(
        failure(config.advance(Step::WritingLibrary, error())),
        "Unable to generate temporary C++ file: E"
    );
    assert_eq!(
        failure(config.advance(Step::WritingSizes, error())),
        "Could not create cpp for computing sizes: E"
    );
    assert_eq!(
        failure(config.advance(Step::RunningCompiler, error())),
        "Unable to execute compiler to build sizes script: E"
    );
    let unwritten = || Event::WriteFailed("E".to_string());
    assert_eq!(
        failure(config.advance(Step::WritingLibrary, unwritten())),
        "called `Result::unwrap()` on an `Err` value: E"
    );
    assert_eq!(
        failure(config.advance(Step::WritingSizes, unwritten())),
        "called `Result::unwrap()` on an `Err` value: E"
    );
}

#[test]
fn events_that_no_step_waits_for_lead_nowhere() {
    let mut config = Config::new();
    assert!(config.advance(Step::Parsing, Event::DirectoryCreated).is_none());
    assert!(config.advance(Step::Parsing, Event::Failed("E".to_string())).is_none());
    assert!(config.advance(Step::Compiling, Event::Failed("E".to_string())).is_none());
    assert!(config.advance(Step::Compiling, Event::WriteFailed("E".to_string())).is_none());
    assert!(config.advance(Step::Compiling, Event::LibraryWritten).is_none());
    assert!(config.files.is_empty());
}

#[test]
fn what_the_compiler_printed_is_shown() {
    match gen_ran("a\nb".to_string(), "c\r\nd", true) {
        Action::Finish(lines, None) => {
            assert_eq!(lines, ["a\nb", "cargo:warning=c", "cargo:warning=d"]);
        }
        other => panic!("{:?}", other),
    }
}
