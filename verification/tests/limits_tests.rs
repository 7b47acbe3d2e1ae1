use equilibrium_ffi::limits::{count_lines, ensure_line_limit, line_limit_check, size_check};
use std::path::Path;

#[test]
fn lines_are_counted_as_str_lines_counts_them() {
    assert_eq!(count_lines(""), 0);
    assert_eq!(count_lines("a"), 1);
    assert_eq!(count_lines("a\n"), 1);
    assert_eq!(count_lines("a\n\nb"), 3);
    assert_eq!(count_lines("a\r\nb\r\n"), 2);
}

#[test]
fn line_limit_messages() {
    assert!(line_limit_check("a\nb\n", 2, "f.h").is_ok());
    assert_eq!(
        line_limit_check("a\nb\nc\n", 2, "f.h").unwrap_err(),
        "File has too many lines (3; max 2): f.h"
    );
    assert!(ensure_line_limit("x\ny", 1, Path::new("g.h")).is_err());
    assert!(ensure_line_limit("x\ny", 2, Path::new("g.h")).is_ok());
}

#[test]
fn size_limit_messages() {
    assert_eq!(size_check(10, 10, "f"), Ok(10));
    assert_eq!(
        size_check(11, 10, "f"),
        Err("File too large (11 bytes; max 10 bytes): f".to_string())
    );
}
