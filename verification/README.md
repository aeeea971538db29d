# cpp_build

The `cpp` cargo build script: it collects the `cpp!` invocations of a crate, generates
the C++ library that holds their code and the program that prints the sizes of their
types, and has both compiled.

- `src/` is the library, verified with Verus. It takes the invocations apart, generates
  the C++, holds the options of a build, and decides on its steps. `src/laws.rs` holds
  what is proved of it as a whole.
- `app/` is what runs the steps: it reads the environment, walks the syntax tree, writes
  the files, and calls the C++ compiler.
- `tests/` are the tests of the library.

What the library takes on trust are the items marked `external_body`, in `sources`
(`cpp_synmap`), `parsing` (`cpp_common`, `cpp_synom`), `codegen` (`cpp_common`) and `text`
(`std`), and the types that it declares of those crates and of `std`.
