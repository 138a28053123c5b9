use debtlens::paths::{detect_language, is_source_file, to_relative_path};

#[test]
fn builds_valid_relative_path() {
    let relative = to_relative_path("/tmp/repo", "/tmp/repo/src/main.rs");
    assert_eq!(relative, "src/main.rs");
}

#[test]
fn relative_path_of_a_file_outside_the_root_is_the_file() {
    assert_eq!(to_relative_path("/tmp/repo", "/srv/x.rs"), "srv/x.rs");
    assert_eq!(to_relative_path("/tmp/repo", "/tmp/repo"), "");
    assert_eq!(to_relative_path("C:\\repo", "C:\\repo\\src\\a.ts"), "src\\a.ts");
    assert_eq!(to_relative_path("", "a/b.rs"), "a/b.rs");
}

#[test]
fn language_goes_by_the_extension() {
    assert_eq!(detect_language("a/b.ts"), "typescript");
    assert_eq!(detect_language("a/b.tsx"), "typescript");
    assert_eq!(detect_language("b.js"), "javascript");
    assert_eq!(detect_language("b.jsx"), "javascript");
    assert_eq!(detect_language("b.py"), "python");
    assert_eq!(detect_language("b.go"), "go");
    assert_eq!(detect_language("/x/b.rs"), "rust");
    assert_eq!(detect_language("B.java"), "java");
    assert_eq!(detect_language("b.txt"), "unknown");
    assert_eq!(detect_language("rs"), "unknown");
    assert_eq!(detect_language(".rs"), "unknown");
    assert_eq!(detect_language("a.rs/"), "rust");
    assert_eq!(detect_language("a.rs/."), "rust");
    assert_eq!(detect_language("a.rs/.."), "unknown");
    assert_eq!(detect_language(""), "unknown");
}

#[test]
fn source_files_are_those_in_a_known_language() {
    assert!(is_source_file("src/main.rs"));
    assert!(is_source_file("x.d.ts"));
    assert!(!is_source_file("README.md"));
    assert!(!is_source_file("Makefile"));
}
