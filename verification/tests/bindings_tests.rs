use equilibrium_ffi::bindings::{
    bindings_for_display, generate_bindings_from_content, sanitize_text, BindingOptions,
};
use equilibrium_ffi::limits::{line_limit_check, size_check, MAX_HEADER_BYTES, MAX_HEADER_LINES};
use std::path::Path;
use equilibrium_ffi::bindings::sanitize_path_for_comment;

#[test]
fn test_generate_bindings_basic() {
    let opts = BindingOptions::default();
    let binding = generate_bindings_from_content(
        Path::new("mylib.h"),
        "int add(int a, int b);\nvoid noop(void);\n",
        &opts,
    )
    .unwrap();

    assert!(binding.code.contains("extern \"C\""));
    assert!(binding.code.contains("pub fn add("));
    assert!(binding.code.contains("pub fn noop()"));
    assert!(binding.warnings.is_empty());
}

#[test]
fn test_generate_bindings_rejects_too_many_lines() {
    let mut body = String::with_capacity(MAX_HEADER_LINES * 4 + 16);
    for _ in 0..=MAX_HEADER_LINES {
        body.push_str("//x\n");
    }
    let err = line_limit_check(&body, MAX_HEADER_LINES, "long.h").unwrap_err();
    assert!(err.contains("too many lines"), "got: {err}");
}

#[test]
fn test_generate_bindings_rejects_oversized_file() {
    let err = size_check(MAX_HEADER_BYTES + 1, MAX_HEADER_BYTES, "huge.h").unwrap_err();
    assert!(err.contains("too large"), "got: {err}");
}

#[test]
fn test_generate_bindings_allowlist_functions() {
    let opts = BindingOptions {
        allowlist_functions: vec!["add".to_string()],
        ..Default::default()
    };
    let binding = generate_bindings_from_content(
        Path::new("mylib.h"),
        "int add(int a, int b);\nint sub(int a, int b);\n",
        &opts,
    )
    .unwrap();
    assert!(binding.code.contains("pub fn add("));
    assert!(!binding.code.contains("pub fn sub("));
    assert_eq!(binding.warnings.len(), 1);
    assert!(binding.warnings[0].contains("sub"));
}

#[test]
fn test_generate_bindings_with_typedef() {
    let opts = BindingOptions::default();
    let binding = generate_bindings_from_content(
        Path::new("types.h"),
        "typedef int handle_t;\nhandle_t open(void);\n",
        &opts,
    )
    .unwrap();
    assert!(binding.code.contains("pub type handle_t = c_int;"));
    assert!(binding.code.contains("pub fn open()"));
}

#[test]
fn bindings_text_for_a_small_header() {
    let (code, warnings) = bindings_for_display(
        "dir/m.h",
        "int add(int a, int b);\n",
        &BindingOptions::default(),
    );
    assert!(warnings.is_empty());
    assert!(code.starts_with("// Auto-generated bindings by equilibrium-ffi\n//\n// Source: dir/m.h\n"));
    assert!(code.contains("    pub fn add(a: c_int, b: c_int) -> c_int;\n"));
    assert!(code.ends_with("}\n"));
}

#[test]
fn source_comment_stays_on_one_line() {
    assert_eq!(sanitize_text("a\nb\rc\0d"), "abcd");
    assert_eq!(sanitize_text("tab\there\u{1b}[0m\u{85}é"), "tabhere[0mé");
    let (code, _) = bindings_for_display("evil\n#[x]\n", "", &BindingOptions::default());
    assert!(code.contains("// Source: evil#[x]\n"));
}

#[test]
fn structs_and_enums_in_bindings() {
    let header = "typedef struct {\n    int x;\n    int y;\n} Point;\ntypedef enum {\n    RED,\n    GREEN = 2\n} Color;\n";
    let opts = BindingOptions {
        derive_debug: true,
        ..Default::default()
    };
    let binding = generate_bindings_from_content(Path::new("shapes.h"), header, &opts).unwrap();
    assert!(binding.code.contains("pub struct Point"));
    assert!(binding.code.contains("pub x: c_int,"));
    assert!(binding.code.contains("pub enum Color"));
    assert!(binding.code.contains("GREEN = 2,"));
    assert!(binding.code.contains("Debug"));
}

#[test]
fn path_comment_is_sanitized() {
    assert_eq!(sanitize_path_for_comment(Path::new("a\nb.h")), "ab.h");
    assert_eq!(sanitize_path_for_comment(Path::new("inc/x.h")), "inc/x.h");
}
