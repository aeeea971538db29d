use cpp_build::config::{Config, Input};
use std::path::PathBuf;

#[test]
fn nothing_is_set_at_first() {
    let config = Config::new();
    assert!(config.include_directories.is_empty());
    assert!(config.definitions.is_empty());
    assert!(config.objects.is_empty());
    assert!(config.flags.is_empty());
    assert!(config.files.is_empty());
    assert!(config.cpp);
    assert_eq!(config.cpp_link_stdlib, None);
    assert_eq!(config.cpp_set_stdlib, None);
    assert_eq!(config.host, None);
    assert_eq!(config.opt_level, None);
    assert_eq!(config.debug, None);
    assert_eq!(config.compiler, None);
    assert_eq!(config.archiver, None);
    assert!(config.cargo_metadata);
    assert_eq!(config.pic, None);
}

#[test]
fn lists_keep_their_order() {
    let mut config = Config::new();
    config
        .include_dir(PathBuf::from("a"))
        .include_dir(PathBuf::from("b"))
        .define("X", Some("1"))
        .define("Y", None)
        .object(PathBuf::from("o1"))
        .object(PathBuf::from("o2"))
        .flag("-f")
        .flag("-g")
        .file(PathBuf::from("f1"))
        .file(PathBuf::from("f2"));
    assert_eq!(config.include_directories, [PathBuf::from("a"), PathBuf::from("b")]);
    assert_eq!(
        config.definitions,
        [("X".to_string(), Some("1".to_string())), ("Y".to_string(), None)]
    );
    assert_eq!(config.objects, [PathBuf::from("o1"), PathBuf::from("o2")]);
    assert_eq!(config.flags, ["-f", "-g"]);
    assert_eq!(config.files.len(), 2);
    assert!(matches!(&config.files[0], Input::Path(path) if path == &PathBuf::from("f1")));
    assert!(matches!(&config.files[1], Input::Path(path) if path == &PathBuf::from("f2")));
}

#[test]
fn options_are_set() {
    let mut config = Config::new();
    config
        .host("h")
        .opt_level_str("s")
        .debug(true)
        .compiler(PathBuf::from("clang"))
        .archiver(PathBuf::from("ar"))
        .cargo_metadata(false)
        .pic(false);
    assert_eq!(config.host, Some("h".to_string()));
    assert_eq!(config.opt_level, Some("s".to_string()));
    assert_eq!(config.debug, Some(true));
    assert_eq!(config.compiler, Some(PathBuf::from("clang")));
    assert_eq!(config.archiver, Some(PathBuf::from("ar")));
    assert!(!config.cargo_metadata);
    assert_eq!(config.pic, Some(false));
    config.opt_level(3).debug(false);
    assert_eq!(config.opt_level, Some("3".to_string()));
    assert_eq!(config.debug, Some(false));
}

#[test]
fn the_stdlib_that_is_set_is_linked() {
    let mut config = Config::new();
    config.cpp_link_stdlib(Some("stdc++"));
    assert_eq!(config.cpp_link_stdlib, Some(Some("stdc++".to_string())));
    assert_eq!(config.cpp_set_stdlib, None);
    config.cpp_set_stdlib(Some("c++"));
    assert_eq!(config.cpp_set_stdlib, Some("c++".to_string()));
    assert_eq!(config.cpp_link_stdlib, Some(Some("c++".to_string())));
    config.cpp_set_stdlib(None);
    assert_eq!(config.cpp_set_stdlib, None);
    assert_eq!(config.cpp_link_stdlib, Some(None));
}
