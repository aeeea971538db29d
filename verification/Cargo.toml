[package]
name = "cpp_build"
version = "0.2.0"
edition = "2021"
publish = false

[dependencies]
cpp_common = "0.2"
cpp_syn = { version = "0.12", features = ["full", "visit"] }
cpp_synom = "0.12"
cpp_synmap = "*"
gcc = "0.3"
lazy_static = "0.2"
