//! Size limits on the files the library reads, and the checks against them.

use vstd::prelude::*;

use crate::paths::{display_string, path_display_text};
use crate::text::{chars_of, decimal, lines, lines_of, push_decimal, push_str, string_from};

verus! {

broadcast use vstd::string::group_string_axioms;

/// Largest C header read (10 MiB).
pub const MAX_HEADER_BYTES: u64 = 10485760;

/// Most lines in a C header read.
pub const MAX_HEADER_LINES: usize = 200000;

/// Largest source file scanned for exports (64 MiB).
pub const MAX_DISCOVERY_SOURCE_BYTES: u64 = 67108864;

/// Largest configuration file read (1 MiB).
pub const MAX_CONFIG_BYTES: u64 = 1048576;

/// The number of lines of `content`, as `str::lines` counts them.
pub fn count_lines(content: &str) -> (r: usize)
    ensures
        r == lines(content@).len(),
{
    let cs = chars_of(content);
    let ls = lines_of(cs.as_slice());
    ls.len()
}

/// The message for a file with too many lines.
pub open spec fn too_many_lines_message(n: nat, max: nat, shown: Seq<char>) -> Seq<char> {
    "File has too many lines ("@ + decimal(n) + "; max "@ + decimal(max) + "): "@ + shown
}

/// Accepts `content` when it has at most `max_lines` lines; else the message
/// names the count, the limit and the file (as its path prints).
pub fn line_limit_check(content: &str, max_lines: usize, shown: &str) -> (r: Result<(), String>)
    ensures
        r is Ok <==> lines(content@).len() <= max_lines,
        r matches Err(m) ==> m@ == too_many_lines_message(lines(content@).len(), max_lines as nat, shown@),
{
    let n = count_lines(content);
    if n > max_lines {
        let mut m = string_from("File has too many lines (");
        push_decimal(&mut m, n as u64);
        push_str(&mut m, "; max ");
        push_decimal(&mut m, max_lines as u64);
        push_str(&mut m, "): ");
        push_str(&mut m, shown);
        Err(m)
    } else {
        Ok(())
    }
}

/// Accepts `content` when it has at most `max_lines` lines.
pub fn ensure_line_limit(content: &str, max_lines: usize, path: &std::path::Path) -> (r: Result<(), String>)
    ensures
        r is Ok <==> lines(content@).len() <= max_lines,
        r matches Err(m) ==> m@ == too_many_lines_message(lines(content@).len(), max_lines as nat, path_display_text(path)),
{
    let shown = display_string(path);
    line_limit_check(content, max_lines, shown.as_str())
}

/// The message for a file over its size limit.
pub open spec fn too_large_message(len: nat, max: nat, shown: Seq<char>) -> Seq<char> {
    "File too large ("@ + decimal(len) + " bytes; max "@ + decimal(max) + " bytes): "@ + shown
}

/// Accepts a file of `len` bytes when it is at most `max_bytes`, giving back
/// the length; else the message names both sizes and the file.
pub fn size_check(len: u64, max_bytes: u64, shown: &str) -> (r: Result<u64, String>)
    ensures
        r matches Ok(l) ==> len <= max_bytes && l == len,
        r matches Err(m) ==> len > max_bytes && m@ == too_large_message(len as nat, max_bytes as nat, shown@),
{
    if len > max_bytes {
        let mut m = string_from("File too large (");
        push_decimal(&mut m, len);
        push_str(&mut m, " bytes; max ");
        push_decimal(&mut m, max_bytes);
        push_str(&mut m, " bytes): ");
        push_str(&mut m, shown);
        Err(m)
    } else {
        Ok(len)
    }
}

} // verus!
