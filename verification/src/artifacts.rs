//! The files and directories that a build leaves behind.

use crate::codegen::{LIB_NAME, MSVC_LIB_NAME};
use vstd::prelude::*;

verus! {

/// What a build leaves on disk.
#[derive(Debug, Clone, Copy, PartialEq, Eq, Structural)]
pub enum Artifact {
    /// The directory of everything that is generated but the libraries.
    Directory,
    /// The library.
    Library,
    /// The library, for Visual Studio.
    MsvcLibrary,
    /// The source of the library.
    LibrarySource,
    /// The source of the program that prints the sizes.
    SizesSource,
    /// The program that prints the sizes.
    SizesProgram,
    /// Its object file, for Visual Studio.
    SizesObject,
    /// Its debug information, for Visual Studio.
    SizesDatabase,
}

impl Artifact {
    /// Whether it lies in the output directory itself, and not in the directory of what
    /// is generated.
    pub open spec fn on_top(self) -> bool {
        self is Directory || self is Library || self is MsvcLibrary
    }

    /// Its name in the directory that it lies in.
    pub open spec fn file_name(self) -> Seq<char> {
        match self {
            Artifact::Directory => "rust_cpp"@,
            Artifact::Library => LIB_NAME@,
            Artifact::MsvcLibrary => MSVC_LIB_NAME@,
            Artifact::LibrarySource => "cpp_closures.cpp"@,
            Artifact::SizesSource => "sizes.cpp"@,
            Artifact::SizesProgram => "print_sizes"@,
            Artifact::SizesObject => "sizes.obj"@,
            Artifact::SizesDatabase => "sizes.pdb"@,
        }
    }

    /// Whether it lies in the output directory itself, and not in the directory of what
    /// is generated.
    pub fn in_out_dir(self) -> (on_top: bool)
        ensures
            on_top == self.on_top(),
    {
        match self {
            Artifact::Directory | Artifact::Library | Artifact::MsvcLibrary => true,
            _ => false,
        }
    }

    /// Its name in the directory that it lies in.
    pub fn name(self) -> (name: &'static str)
        ensures
            name@ == self.file_name(),
    {
        match self {
            Artifact::Directory => "rust_cpp",
            Artifact::Library => LIB_NAME,
            Artifact::MsvcLibrary => MSVC_LIB_NAME,
            Artifact::LibrarySource => "cpp_closures.cpp",
            Artifact::SizesSource => "sizes.cpp",
            Artifact::SizesProgram => "print_sizes",
            Artifact::SizesObject => "sizes.obj",
            Artifact::SizesDatabase => "sizes.pdb",
        }
    }
}

}
