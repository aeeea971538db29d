//! This crate is the `cpp` cargo build script implementation. It is useless
//! without the companion crates `cpp`, and `cpp_macro`.
//!
//! For more information, see the [`cpp` crate module level
//! documentation](https://docs.rs/cpp).

use crate::config::{Config, ConfigView};
use crate::steps::{Action, ActionView, Step};
use std::path::PathBuf;
use vstd::prelude::*;

pub mod artifacts;
pub mod codegen;
pub mod config;
pub mod handle;
pub mod laws;
pub mod lexing;
pub mod operations;
pub mod parsing;
pub mod sources;
pub mod steps;
pub mod syntax;
pub mod text;

verus! {

/// Run the `cpp` build process on the crate with a root at the given path.
/// Intended to be used within `build.rs` files.
///
/// Returns the configuration of the build, which nothing is set of, and its first step.
pub fn build(path: PathBuf) -> (first: (Config, Step, Action))
    ensures
        first.0@ == ConfigView::initial(),
        first.1 == Step::Cleaning(path),
        first.2@ == ActionView::CheckDirectory,
{
    let mut config = Config::new();
    let (step, action) = config.build(path);
    (config, step, action)
}

}
