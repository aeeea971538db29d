//! The options of a build.

use crate::artifacts::Artifact;
use crate::text::{decimal, decimal_text, texts};
use std::path::PathBuf;
use vstd::prelude::*;
use vstd::string::*;

verus! {

/// `std::path::PathBuf`. A path is carried, never read.
#[verifier::external_type_specification]
#[verifier::external_body]
pub struct ExPathBuf(std::path::PathBuf);

/// A file to compile.
#[derive(Debug)]
pub enum Input {
    Path(PathBuf),
    /// One that the build writes.
    Generated(Artifact),
}

/// This struct is for advanced users of the build script. It allows providing
/// configuration options to `cpp` and the compiler when it is used to build.
///
/// It holds what the C++ compiler of the `gcc` crate is to be told: where an option is
/// `None`, that crate chooses.
#[derive(Debug)]
pub struct Config {
    pub include_directories: Vec<PathBuf>,
    pub definitions: Vec<(String, Option<String>)>,
    pub objects: Vec<PathBuf>,
    pub flags: Vec<String>,
    pub files: Vec<Input>,
    pub cpp: bool,
    pub cpp_link_stdlib: Option<Option<String>>,
    pub cpp_set_stdlib: Option<String>,
    pub host: Option<String>,
    pub opt_level: Option<String>,
    pub debug: Option<bool>,
    pub compiler: Option<PathBuf>,
    pub archiver: Option<PathBuf>,
    pub cargo_metadata: bool,
    pub pic: Option<bool>,
}

/// The options of a build.
pub struct ConfigView {
    pub include_directories: Seq<PathBuf>,
    pub definitions: Seq<(Seq<char>, Option<Seq<char>>)>,
    pub objects: Seq<PathBuf>,
    pub flags: Seq<Seq<char>>,
    pub files: Seq<Input>,
    pub cpp: bool,
    pub cpp_link_stdlib: Option<Option<Seq<char>>>,
    pub cpp_set_stdlib: Option<Seq<char>>,
    pub host: Option<Seq<char>>,
    pub opt_level: Option<Seq<char>>,
    pub debug: Option<bool>,
    pub compiler: Option<PathBuf>,
    pub archiver: Option<PathBuf>,
    pub cargo_metadata: bool,
    pub pic: Option<bool>,
}

/// The text of an optional string.
pub open spec fn optional_text(value: Option<String>) -> Option<Seq<char>> {
    match value {
        Some(value) => Some(value@),
        None => None,
    }
}

/// The text of an optional string slice.
pub open spec fn optional_str(value: Option<&str>) -> Option<Seq<char>> {
    match value {
        Some(value) => Some(value@),
        None => None,
    }
}

impl ConfigView {
    /// The options of a C++ build of which nothing is set.
    pub open spec fn initial() -> ConfigView {
        ConfigView {
            include_directories: Seq::empty(),
            definitions: Seq::empty(),
            objects: Seq::empty(),
            flags: Seq::empty(),
            files: Seq::empty(),
            cpp: true,
            cpp_link_stdlib: None,
            cpp_set_stdlib: None,
            host: None,
            opt_level: None,
            debug: None,
            compiler: None,
            archiver: None,
            cargo_metadata: true,
            pic: None,
        }
    }

    /// The options with one more file to compile.
    pub open spec fn with_file(self, file: Input) -> ConfigView {
        ConfigView { files: self.files.push(file), ..self }
    }
}

impl View for Config {
    type V = ConfigView;

    open spec fn view(&self) -> ConfigView {
        ConfigView {
            include_directories: self.include_directories@,
            definitions: self.definitions@.map_values(
                |d: (String, Option<String>)| (d.0@, optional_text(d.1)),
            ),
            objects: self.objects@,
            flags: texts(self.flags@),
            files: self.files@,
            cpp: self.cpp,
            cpp_link_stdlib: match self.cpp_link_stdlib {
                Some(stdlib) => Some(optional_text(stdlib)),
                None => None,
            },
            cpp_set_stdlib: optional_text(self.cpp_set_stdlib),
            host: optional_text(self.host),
            opt_level: optional_text(self.opt_level),
            debug: self.debug,
            compiler: self.compiler,
            archiver: self.archiver,
            cargo_metadata: self.cargo_metadata,
            pic: self.pic,
        }
    }
}

fn owned(value: Option<&str>) -> (text: Option<String>)
    ensures
        optional_text(text) == optional_str(value),
{
    match value {
        Some(value) => Some(value.to_owned()),
        None => None,
    }
}

impl Config {
    /// Create a new `Config` object. This object will hold the configuration
    /// options which control the build. If you don't need to make any changes,
    /// `build` is a wrapper function around this interface.
    pub fn new() -> (config: Config)
        ensures
            config@ == ConfigView::initial(),
    {
        let config = Config {
            include_directories: Vec::new(),
            definitions: Vec::new(),
            objects: Vec::new(),
            flags: Vec::new(),
            files: Vec::new(),
            cpp: true,
            cpp_link_stdlib: None,
            cpp_set_stdlib: None,
            host: None,
            opt_level: None,
            debug: None,
            compiler: None,
            archiver: None,
            cargo_metadata: true,
            pic: None,
        };
        proof {
            assert(config@.definitions == Seq::<(Seq<char>, Option<Seq<char>>)>::empty());
            assert(config@.flags == Seq::<Seq<char>>::empty());
        }
        config
    }

    /// Add a directory to the `-I` path for headers
    pub fn include_dir(&mut self, dir: PathBuf) -> (config: &mut Self)
        ensures
            config@ == (ConfigView {
                include_directories: old(self)@.include_directories.push(dir),
                ..old(self)@
            }),
            *final(self) == *final(config),
    {
        self.include_directories.push(dir);
        self
    }

    /// Specify a `-D` variable with an optional value
    pub fn define(&mut self, var: &str, val: Option<&str>) -> (config: &mut Self)
        ensures
            config@ == (ConfigView {
                definitions: old(self)@.definitions.push((var@, optional_str(val))),
                ..old(self)@
            }),
            *final(self) == *final(config),
    {
        self.definitions.push((var.to_owned(), owned(val)));
        proof {
            assert(self@.definitions == old(self)@.definitions.push((var@, optional_str(val))));
        }
        self
    }

    /// Add an arbitrary object file to link in
    pub fn object(&mut self, obj: PathBuf) -> (config: &mut Self)
        ensures
            config@ == (ConfigView { objects: old(self)@.objects.push(obj), ..old(self)@ }),
            *final(self) == *final(config),
    {
        self.objects.push(obj);
        self
    }

    /// Add an arbitrary flag to the invocation of the compiler
    pub fn flag(&mut self, flag: &str) -> (config: &mut Self)
        ensures
            config@ == (ConfigView { flags: old(self)@.flags.push(flag@), ..old(self)@ }),
            *final(self) == *final(config),
    {
        self.flags.push(flag.to_owned());
        proof {
            assert(self@.flags == old(self)@.flags.push(flag@));
        }
        self
    }

    /// Add a file which will be compiled
    pub fn file(&mut self, p: PathBuf) -> (config: &mut Self)
        ensures
            config@ == old(self)@.with_file(Input::Path(p)),
            *final(self) == *final(config),
    {
        self.files.push(Input::Path(p));
        self
    }

    /// Set the standard library to link against when compiling with C++
    /// support.
    ///
    /// The default value of this property depends on the current target: On
    /// OS X `Some("c++")` is used, when compiling for a Visual Studio based
    /// target `None` is used and for other targets `Some("stdc++")` is used.
    ///
    /// A value of `None` indicates that no automatic linking should happen,
    /// otherwise cargo will link against the specified library.
    ///
    /// The given library name must not contain the `lib` prefix.
    pub fn cpp_link_stdlib(&mut self, cpp_link_stdlib: Option<&str>) -> (config: &mut Self)
        ensures
            config@ == (ConfigView {
                cpp_link_stdlib: Some(optional_str(cpp_link_stdlib)),
                ..old(self)@
            }),
            *final(self) == *final(config),
    {
        self.cpp_link_stdlib = Some(owned(cpp_link_stdlib));
        self
    }

    /// Force the C++ compiler to use the specified standard library.
    ///
    /// Setting this option will automatically set `cpp_link_stdlib` to the same
    /// value.
    ///
    /// The default value of this option is always `None`.
    ///
    /// This option has no effect when compiling for a Visual Studio based
    /// target.
    ///
    /// This option sets the `-stdlib` flag, which is only supported by some
    /// compilers (clang, icc) but not by others (gcc). The library will not
    /// detect which compiler is used, as such it is the responsibility of the
    /// caller to ensure that this option is only used in conjuction with a
    /// compiler which supports the `-stdlib` flag.
    ///
    /// A value of `None` indicates that no specific C++ standard library should
    /// be used, otherwise `-stdlib` is added to the compile invocation.
    ///
    /// The given library name must not contain the `lib` prefix.
    pub fn cpp_set_stdlib(&mut self, cpp_set_stdlib: Option<&str>) -> (config: &mut Self)
        ensures
            config@ == (ConfigView {
                cpp_set_stdlib: optional_str(cpp_set_stdlib),
                cpp_link_stdlib: Some(optional_str(cpp_set_stdlib)),
                ..old(self)@
            }),
            *final(self) == *final(config),
    {
        self.cpp_set_stdlib = owned(cpp_set_stdlib);
        self.cpp_link_stdlib(cpp_set_stdlib)
    }

    /// Configures the host assumed by this configuration.
    ///
    /// This option is automatically scraped from the `HOST` environment
    /// variable by build scripts, so it's not required to call this function.
    pub fn host(&mut self, host: &str) -> (config: &mut Self)
        ensures
            config@ == (ConfigView { host: Some(host@), ..old(self)@ }),
            *final(self) == *final(config),
    {
        self.host = Some(host.to_owned());
        self
    }

    /// Configures the optimization level of the generated object files.
    ///
    /// This option is automatically scraped from the `OPT_LEVEL` environment
    /// variable by build scripts, so it's not required to call this function.
    pub fn opt_level(&mut self, opt_level: u32) -> (config: &mut Self)
        ensures
            config@ == (ConfigView { opt_level: Some(decimal(opt_level as nat)), ..old(self)@ }),
            *final(self) == *final(config),
    {
        self.opt_level = Some(decimal_text(opt_level as u64));
        self
    }

    /// Configures the optimization level of the generated object files.
    ///
    /// This option is automatically scraped from the `OPT_LEVEL` environment
    /// variable by build scripts, so it's not required to call this function.
    pub fn opt_level_str(&mut self, opt_level: &str) -> (config: &mut Self)
        ensures
            config@ == (ConfigView { opt_level: Some(opt_level@), ..old(self)@ }),
            *final(self) == *final(config),
    {
        self.opt_level = Some(opt_level.to_owned());
        self
    }

    /// Configures whether the compiler will emit debug information when
    /// generating object files.
    ///
    /// This option is automatically scraped from the `PROFILE` environment
    /// variable by build scripts (only enabled when the profile is "debug"), so
    /// it's not required to call this function.
    pub fn debug(&mut self, debug: bool) -> (config: &mut Self)
        ensures
            config@ == (ConfigView { debug: Some(debug), ..old(self)@ }),
            *final(self) == *final(config),
    {
        self.debug = Some(debug);
        self
    }

    /// Configures the compiler to be used to produce output.
    ///
    /// This option is automatically determined from the target platform or a
    /// number of environment variables, so it's not required to call this
    /// function.
    pub fn compiler(&mut self, compiler: PathBuf) -> (config: &mut Self)
        ensures
            config@ == (ConfigView { compiler: Some(compiler), ..old(self)@ }),
            *final(self) == *final(config),
    {
        self.compiler = Some(compiler);
        self
    }

    /// Configures the tool used to assemble archives.
    ///
    /// This option is automatically determined from the target platform or a
    /// number of environment variables, so it's not required to call this
    /// function.
    pub fn archiver(&mut self, archiver: PathBuf) -> (config: &mut Self)
        ensures
            config@ == (ConfigView { archiver: Some(archiver), ..old(self)@ }),
            *final(self) == *final(config),
    {
        self.archiver = Some(archiver);
        self
    }

    /// Define whether metadata should be emitted for cargo allowing it to
    /// automatically link the binary. Defaults to `true`.
    pub fn cargo_metadata(&mut self, cargo_metadata: bool) -> (config: &mut Self)
        ensures
            config@ == (ConfigView { cargo_metadata, ..old(self)@ }),
            *final(self) == *final(config),
    {
        self.cargo_metadata = cargo_metadata;
        self
    }

    /// Configures whether the compiler will emit position independent code.
    ///
    /// This option defaults to `false` for `i686` and `windows-gnu` targets and
    /// to `true` for all other targets.
    pub fn pic(&mut self, pic: bool) -> (config: &mut Self)
        ensures
            config@ == (ConfigView { pic: Some(pic), ..old(self)@ }),
            *final(self) == *final(config),
    {
        self.pic = Some(pic);
        self
    }
}

}
