//! Checks on the extra arguments handed to a compiler, the names of compiler
//! outputs, and the errors and results of a compilation.

use vstd::prelude::*;

use crate::detector::{Language, on_path, spec_debug_name, spec_to_c_args};
use crate::exports::io_error_text;
use crate::text::{
    ascii_lowercase, chars_of, contains_seq, contains_str, decimal, eq_str, push_decimal,
    push_str, starts_with, starts_with_str, string_from, string_views, to_ascii_lower,
};

verus! {

broadcast use vstd::string::group_string_axioms;

/// Largest source file handed to a compiler (64 MiB).
pub const MAX_SOURCE_FILE_BYTES: u64 = 67108864;

/// Why a compilation failed.
#[derive(Debug)]
pub enum CompileError {
    /// Compiler not found on system.
    CompilerNotFound { language: Language },
    /// Compilation failed.
    CompilationFailed { stderr: String, exit_code: Option<i32> },
    /// IO error.
    Io(std::io::Error),
    /// Language doesn't support C output.
    UnsupportedCOutput { language: Language },
    /// Extra compiler/link argument was rejected.
    InvalidExtraArg { arg: String },
}

impl vstd::std_specs::convert::FromSpecImpl<std::io::Error> for CompileError {
    open spec fn obeys_from_spec() -> bool {
        true
    }

    open spec fn from_spec(v: std::io::Error) -> Self {
        CompileError::Io(v)
    }
}

impl From<std::io::Error> for CompileError {
    fn from(e: std::io::Error) -> (r: Self) {
        CompileError::Io(e)
    }
}

/// The result of a successful compilation.
#[derive(Clone, Debug)]
pub struct CompileResult {
    /// Path to the generated C file or object.
    pub output_path: std::path::PathBuf,
    /// Path to the generated header (if any).
    pub header_path: Option<std::path::PathBuf>,
    /// The language that was compiled.
    pub language: Language,
    /// Compiler output (stdout).
    pub stdout: String,
    /// Compiler warnings (stderr, if successful).
    pub stderr: String,
}

/// `{:?}` of an optional exit code.
pub open spec fn exit_code_text(code: Option<i32>) -> Seq<char> {
    match code {
        None => "None"@,
        Some(c) => "Some("@ + (if c < 0 { "-"@ + decimal((-c) as nat) } else { decimal(c as nat) }) + ")"@,
    }
}

fn push_exit_code(out: &mut String, code: Option<i32>)
    ensures
        final(out)@ == old(out)@ + exit_code_text(code),
{
    match code {
        None => push_str(out, "None"),
        Some(c) => {
            push_str(out, "Some(");
            if c < 0 {
                push_str(out, "-");
                let m: i64 = -(c as i64);
                push_decimal(out, m as u64);
            } else {
                push_decimal(out, c as u64);
            }
            push_str(out, ")");
        },
    }
}

impl CompileError {
    /// The message that describes the error.
    pub fn message(&self) -> (r: String)
        ensures
            self matches CompileError::CompilerNotFound { language } ==> r@ == "Compiler for "@
                + spec_debug_name(*language) + " not found"@,
            self matches CompileError::CompilationFailed { stderr, exit_code } ==> r@
                == "Compilation failed (exit "@ + exit_code_text(*exit_code) + "): "@ + stderr@,
            self is Io ==> exists|e: Seq<char>| r@ == "IO error: "@ + e,
            self matches CompileError::UnsupportedCOutput { language } ==> r@ == spec_debug_name(
                *language,
            ) + " doesn't support direct C output"@,
            self matches CompileError::InvalidExtraArg { arg } ==> r@
                == "rejected extra compiler argument: "@ + arg@,
    {
        match self {
            CompileError::CompilerNotFound { language } => {
                let mut m = string_from("Compiler for ");
                push_str(&mut m, language.debug_name());
                push_str(&mut m, " not found");
                m
            },
            CompileError::CompilationFailed { stderr, exit_code } => {
                let mut m = string_from("Compilation failed (exit ");
                push_exit_code(&mut m, *exit_code);
                push_str(&mut m, "): ");
                push_str(&mut m, stderr.as_str());
                m
            },
            CompileError::Io(e) => {
                let mut m = string_from("IO error: ");
                let text = io_error_text(e);
                push_str(&mut m, text.as_str());
                assert(m@ == "IO error: "@ + text@);
                m
            },
            CompileError::UnsupportedCOutput { language } => {
                let mut m = string_from(language.debug_name());
                push_str(&mut m, " doesn't support direct C output");
                m
            },
            CompileError::InvalidExtraArg { arg } => {
                let mut m = string_from("rejected extra compiler argument: ");
                push_str(&mut m, arg.as_str());
                m
            },
        }
    }
}

pub open spec fn is_ascii_char(c: char) -> bool {
    (c as u32) < 128
}

/// `char::is_control` on an ASCII character.
pub open spec fn is_ascii_control(c: char) -> bool {
    (c as u32) < 32 || (c as u32) == 127
}

/// `char::is_whitespace` on an ASCII character.
pub open spec fn is_ascii_ws(c: char) -> bool {
    c == ' ' || c == '\t' || c == '\n' || c == '\r' || c == '\u{0B}' || c == '\u{0C}'
}

pub open spec fn is_ascii_alnum(c: char) -> bool {
    ('0' <= c && c <= '9') || ('a' <= c && c <= 'z') || ('A' <= c && c <= 'Z')
}

pub open spec fn is_ascii_alpha(c: char) -> bool {
    ('a' <= c && c <= 'z') || ('A' <= c && c <= 'Z')
}

pub open spec fn is_ascii_graphic(c: char) -> bool {
    '!' <= c && c <= '~'
}

/// A character allowed after the first letter of a flag.
pub open spec fn is_flag_char(c: char) -> bool {
    is_ascii_alnum(c) || c == '_' || c == '.' || c == '+' || c == '-' || c == '=' || c == ':' || c == '/'
}

/// The lowercase argument starts a denied option `prefix`.
pub open spec fn denied_by(lower: Seq<char>, prefix: Seq<char>) -> bool {
    ||| lower == prefix
    ||| starts_with(lower, prefix + "="@)
    ||| starts_with(lower, prefix + ":"@)
    ||| (prefix == "-o"@ && starts_with(lower, "-o"@) && !starts_with(lower, "-objc"@))
    ||| (prefix == "-of"@ && starts_with(lower, "-of"@))
    ||| (prefix == "-b"@ && (lower == "-b"@ || starts_with(lower, "-b/"@) || starts_with(lower, "-b="@)))
}

/// The lowercase argument starts one of the options that load code, redirect
/// output or pass options to the linker.
pub open spec fn denied(lower: Seq<char>) -> bool {
    ||| denied_by(lower, "-fplugin"@)
    ||| denied_by(lower, "-load"@)
    ||| denied_by(lower, "-plugin"@)
    ||| denied_by(lower, "-wl,"@)
    ||| denied_by(lower, "-xlinker"@)
    ||| denied_by(lower, "-wrapper"@)
    ||| denied_by(lower, "-specs"@)
    ||| denied_by(lower, "-b"@)
    ||| denied_by(lower, "-femit-bin"@)
    ||| denied_by(lower, "--output"@)
    ||| denied_by(lower, "-o"@)
    ||| denied_by(lower, "-of"@)
}

/// What follows the leading `-` or `--` of a flag.
pub open spec fn flag_body(arg: Seq<char>) -> Seq<char> {
    if arg[1] == '-' {
        arg.skip(2)
    } else {
        arg.skip(1)
    }
}

/// An option flag: `-` or `--`, a letter, then letters, digits and `_ . + - = : /`.
pub open spec fn flag_syntax(arg: Seq<char>) -> bool {
    if arg.len() < 2 || arg[0] != '-' {
        false
    } else {
        let rest = flag_body(arg);
        rest.len() > 0 && is_ascii_alpha(rest[0]) && forall|k: int|
            1 <= k < rest.len() ==> is_flag_char(#[trigger] rest[k])
    }
}

/// Whether an extra compiler argument is accepted: a non-empty ASCII option
/// without whitespace or control characters, not a response file; `-O` levels
/// made of letters and digits; none of the denied options; `-I` paths without
/// `..`; otherwise plain flag syntax.
pub open spec fn compile_arg_allowed(arg: Seq<char>) -> bool {
    if arg.len() == 0 || !(forall|k: int| 0 <= k < arg.len() ==> is_ascii_char(#[trigger] arg[k])) {
        false
    } else if exists|k: int| 0 <= k < arg.len() && (is_ascii_control(#[trigger] arg[k]) || is_ascii_ws(arg[k])) {
        false
    } else if starts_with(arg, "@"@) || !starts_with(arg, "-"@) {
        false
    } else if starts_with(arg, "-O"@) {
        forall|k: int| "-O"@.len() <= k < arg.len() ==> is_ascii_alnum(#[trigger] arg[k])
    } else if denied(to_ascii_lower(arg)) {
        false
    } else if starts_with(arg, "-I"@) && arg.len() > 2 {
        let path = arg.skip(2);
        !contains_seq(path, ".."@) && forall|k: int| 0 <= k < path.len() ==> is_ascii_graphic(#[trigger] path[k])
    } else {
        flag_syntax(arg)
    }
}

fn denied_by_exec(lower: &[char], prefix: &str) -> (r: bool)
    ensures
        r == denied_by(lower@, prefix@),
{
    let mut eq_form = string_from(prefix);
    push_str(&mut eq_form, "=");
    let mut colon_form = string_from(prefix);
    push_str(&mut colon_form, ":");
    let p = chars_of(prefix);
    eq_str(lower, prefix) || starts_with_str(lower, eq_form.as_str()) || starts_with_str(
        lower,
        colon_form.as_str(),
    ) || (eq_str(p.as_slice(), "-o") && starts_with_str(lower, "-o") && !starts_with_str(
        lower,
        "-objc",
    )) || (eq_str(p.as_slice(), "-of") && starts_with_str(lower, "-of")) || (eq_str(
        p.as_slice(),
        "-b",
    ) && (eq_str(lower, "-b") || starts_with_str(lower, "-b/") || starts_with_str(lower, "-b=")))
}

fn denied_exec(lower: &[char]) -> (r: bool)
    ensures
        r == denied(lower@),
{
    denied_by_exec(lower, "-fplugin") || denied_by_exec(lower, "-load") || denied_by_exec(lower, "-plugin") || denied_by_exec(lower, "-wl,") || denied_by_exec(lower, "-xlinker") || denied_by_exec(lower, "-wrapper") || denied_by_exec(lower, "-specs") || denied_by_exec(lower, "-b") || denied_by_exec(lower, "-femit-bin") || denied_by_exec(lower, "--output") || denied_by_exec(lower, "-o") || denied_by_exec(lower, "-of")
}

/// Whether `arg` has flag syntax (ASCII arguments only).
fn extra_flag_syntax(arg: &[char]) -> (r: bool)
    ensures
        r == flag_syntax(arg@),
{
    let n = arg.len();
    if n < 2 || arg[0] != '-' {
        return false;
    }
    let start: usize = if arg[1] == '-' { 2 } else { 1 };
    let ghost rest = arg@.skip(start as int);
    assert(flag_body(arg@) == rest);
    if start >= n {
        return false;
    }
    let c = arg[start];
    assert(rest[0] == c);
    if !(('a' <= c && c <= 'z') || ('A' <= c && c <= 'Z')) {
        return false;
    }
    let mut i = start + 1;
    while i < n
        invariant
            start < i <= n == arg@.len(),
            n >= 2,
            arg@[0] == '-',
            start == (if arg@[1] == '-' { 2usize } else { 1usize }),
            rest == arg@.skip(start as int),
            rest.len() > 0 && is_ascii_alpha(rest[0]),
            forall|k: int| 1 <= k < i - start ==> is_flag_char(#[trigger] rest[k]),
        decreases n - i,
    {
        let d = arg[i];
        if !(('0' <= d && d <= '9') || ('a' <= d && d <= 'z') || ('A' <= d && d <= 'Z') || d == '_'
            || d == '.' || d == '+' || d == '-' || d == '=' || d == ':' || d == '/') {
            assert(rest[i - start] == d);
            assert(!is_flag_char(rest[i - start]));
            assert(flag_body(arg@) == rest);
            return false;
        }
        i = i + 1;
    }
    true
}

fn all_ascii(a: &[char]) -> (r: bool)
    ensures
        r == forall|k: int| 0 <= k < a@.len() ==> is_ascii_char(#[trigger] a@[k]),
{
    let mut i: usize = 0;
    while i < a.len()
        invariant
            i <= a@.len(),
            forall|k: int| 0 <= k < i ==> is_ascii_char(#[trigger] a@[k]),
        decreases a.len() - i,
    {
        if (a[i] as u32) >= 128 {
            assert(!is_ascii_char(a@[i as int]));
            return false;
        }
        i = i + 1;
    }
    true
}

fn has_control_or_space(a: &[char]) -> (r: bool)
    ensures
        r == exists|k: int| 0 <= k < a@.len() && (is_ascii_control(#[trigger] a@[k]) || is_ascii_ws(a@[k])),
{
    let mut i: usize = 0;
    while i < a.len()
        invariant
            i <= a@.len(),
            forall|k: int| 0 <= k < i ==> !(is_ascii_control(#[trigger] a@[k]) || is_ascii_ws(a@[k])),
        decreases a.len() - i,
    {
        let c = a[i];
        let u = c as u32;
        if u < 32 || u == 127 || c == ' ' || c == '\t' || c == '\n' || c == '\r' || c == '\u{0B}'
            || c == '\u{0C}' {
            assert(is_ascii_control(a@[i as int]) || is_ascii_ws(a@[i as int]));
            return true;
        }
        i = i + 1;
    }
    false
}

fn all_alnum_from(a: &[char], from: usize) -> (r: bool)
    ensures
        r == forall|k: int| from <= k < a@.len() ==> is_ascii_alnum(#[trigger] a@[k]),
{
    let mut k: usize = from;
    while k < a.len()
        invariant
            from <= k || k >= a@.len(),
            forall|m: int| from <= m < k ==> is_ascii_alnum(#[trigger] a@[m]),
        decreases a.len() - k,
    {
        let c = a[k];
        if !(('0' <= c && c <= '9') || ('a' <= c && c <= 'z') || ('A' <= c && c <= 'Z')) {
            assert(!is_ascii_alnum(a@[k as int]));
            return false;
        }
        k = k + 1;
    }
    true
}

fn all_graphic(a: &[char]) -> (r: bool)
    ensures
        r == forall|k: int| 0 <= k < a@.len() ==> is_ascii_graphic(#[trigger] a@[k]),
{
    let mut k: usize = 0;
    while k < a.len()
        invariant
            k <= a@.len(),
            forall|m: int| 0 <= m < k ==> is_ascii_graphic(#[trigger] a@[m]),
        decreases a.len() - k,
    {
        let c = a[k];
        if !('!' <= c && c <= '~') {
            assert(!is_ascii_graphic(a@[k as int]));
            return false;
        }
        k = k + 1;
    }
    true
}

/// Whether an extra compiler argument is accepted.
pub fn extra_compile_arg_allowed(arg: &str) -> (r: bool)
    ensures
        r == compile_arg_allowed(arg@),
{
    let a = chars_of(arg);
    let s = a.as_slice();
    let n = a.len();
    if n == 0 || !all_ascii(s) {
        return false;
    }
    if has_control_or_space(s) {
        return false;
    }
    if starts_with_str(s, "@") || !starts_with_str(s, "-") {
        return false;
    }
    proof {
        reveal_strlit("-O");
        reveal_strlit("-I");
    }
    if starts_with_str(s, "-O") {
        return all_alnum_from(s, 2);
    }
    let lower = ascii_lowercase(s);
    if denied_exec(lower.as_slice()) {
        return false;
    }
    if starts_with_str(s, "-I") && n > 2 {
        let path = crate::text::slice_chars(s, 2, n);
        assert(path@ == arg@.skip(2));
        if contains_str(path.as_slice(), "..") {
            return false;
        }
        return all_graphic(path.as_slice());
    }
    extra_flag_syntax(s)
}

/// Whether an extra linker argument is accepted: an accepted compiler
/// argument that names a library (`-l`) or a library directory (`-L`).
pub open spec fn link_arg_allowed(arg: Seq<char>) -> bool {
    compile_arg_allowed(arg) && (starts_with(arg, "-l"@) || starts_with(arg, "-L"@))
}

/// Whether an extra linker argument is accepted.
pub fn extra_link_arg_allowed(arg: &str) -> (r: bool)
    ensures
        r == link_arg_allowed(arg@),
{
    let a = chars_of(arg);
    extra_compile_arg_allowed(arg) && (starts_with_str(a.as_slice(), "-l") || starts_with_str(
        a.as_slice(),
        "-L",
    ))
}

/// The error names `arg` as the rejected extra argument.
pub open spec fn rejects(e: CompileError, arg: Seq<char>) -> bool {
    e matches CompileError::InvalidExtraArg { arg: a } && a@ == arg
}

/// Accepts the extra arguments, or rejects the first one that is not allowed.
pub fn validate_extra_args(args: &[String]) -> (r: Result<(), CompileError>)
    ensures
        r is Ok <==> forall|k: int| 0 <= k < args@.len() ==> compile_arg_allowed(#[trigger] args@[k]@),
        r matches Err(e) ==> exists|k: int|
            {
                &&& 0 <= k < args@.len()
                &&& !compile_arg_allowed(args@[k]@)
                &&& forall|j: int| 0 <= j < k ==> compile_arg_allowed(#[trigger] args@[j]@)
                &&& rejects(e, args@[k]@)
            },
{
    let mut i: usize = 0;
    while i < args.len()
        invariant
            i <= args@.len(),
            forall|k: int| 0 <= k < i ==> compile_arg_allowed(#[trigger] args@[k]@),
        decreases args.len() - i,
    {
        if !extra_compile_arg_allowed(args[i].as_str()) {
            let arg = args[i].clone();
            return Err(CompileError::InvalidExtraArg { arg });
        }
        i = i + 1;
    }
    Ok(())
}

/// The operating system a build targets, for the names of shared libraries.
#[derive(Clone, Copy, Debug, PartialEq, Eq, Structural)]
pub enum TargetOs {
    Windows,
    MacOs,
    Other,
}

/// The name of the file a compilation of `stem` produces.
pub open spec fn spec_artifact_filename(language: Language, stem: Seq<char>, os: TargetOs) -> Seq<char> {
    match language {
        Language::C | Language::Cpp | Language::Zig | Language::D | Language::Odin | Language::Hare => stem + ".o"@,
        Language::V => stem + ".c"@,
        Language::Nim => stem + ".a"@,
        Language::CSharp => stem + ".dll"@,
        Language::Rust => match os {
            TargetOs::Windows => stem + ".dll"@,
            TargetOs::MacOs => stem + ".dylib"@,
            TargetOs::Other => stem + ".so"@,
        },
    }
}

/// The name of the file a compilation of `stem` produces on `os`.
pub fn artifact_filename(language: Language, stem: &str, os: TargetOs) -> (r: String)
    ensures
        r@ == spec_artifact_filename(language, stem@, os),
{
    let mut name = string_from(stem);
    let ext = match language {
        Language::C | Language::Cpp | Language::Zig | Language::D | Language::Odin | Language::Hare => ".o",
        Language::V => ".c",
        Language::Nim => ".a",
        Language::CSharp => ".dll",
        Language::Rust => match os {
            TargetOs::Windows => ".dll",
            TargetOs::MacOs => ".dylib",
            TargetOs::Other => ".so",
        },
    };
    push_str(&mut name, ext);
    name
}

/// The compiler arguments for turning `input` into `output`, followed by the
/// extra arguments.
pub fn compile_command_args(language: Language, input: &str, output: &str, extra: &[String]) -> (r: Vec<String>)
    ensures
        string_views(r@) == crate::detector::spec_to_c_args(language, input@, output@) + string_views(extra@),
{
    let mut args = language.to_c_args(input, output);
    let ghost base = string_views(args@);
    for i in 0..extra.len()
        invariant
            string_views(args@) == base + string_views(extra@.take(i as int)),
    {
        let ghost before = string_views(args@);
        args.push(extra[i].clone());
        assert(string_views(args@) =~= before.push(extra@[i as int]@));
        assert(string_views(extra@.take(i + 1)) =~= string_views(extra@.take(i as int)).push(extra@[i as int]@));
    }
    assert(extra@.take(extra@.len() as int) =~= extra@);
    args
}

/// The message for a source file over `MAX_SOURCE_FILE_BYTES`.
pub open spec fn source_too_large_message(len: nat) -> Seq<char> {
    "source file too large ("@ + decimal(len) + " bytes; max "@ + decimal(MAX_SOURCE_FILE_BYTES as nat) + " bytes)"@
}

/// Accepts a source file of `len` bytes for compilation, or says why not.
pub fn source_size_check(len: u64) -> (r: Result<(), String>)
    ensures
        r is Ok <==> len <= MAX_SOURCE_FILE_BYTES,
        r matches Err(m) ==> m@ == source_too_large_message(len as nat),
{
    if len > MAX_SOURCE_FILE_BYTES {
        let mut m = string_from("source file too large (");
        push_decimal(&mut m, len);
        push_str(&mut m, " bytes; max ");
        push_decimal(&mut m, MAX_SOURCE_FILE_BYTES);
        push_str(&mut m, " bytes)");
        Err(m)
    } else {
        Ok(())
    }
}

/// The stem that output files are named after: the source's, or `output`.
pub fn output_stem(stem: Option<&str>) -> (r: String)
    ensures
        r@ == match stem {
            Some(s) => s@,
            None => "output"@,
        },
{
    match stem {
        Some(s) => string_from(s),
        None => string_from("output"),
    }
}

/// The header a compilation may leave beside its output: `stem.h`.
pub fn header_filename(stem: &str) -> (r: String)
    ensures
        r@ == stem@ + ".h"@,
{
    let mut s = string_from(stem);
    push_str(&mut s, ".h");
    s
}

/// The static library some compilers write instead: `libstem.a`.
pub fn archive_filename(stem: &str) -> (r: String)
    ensures
        r@ == "lib"@ + stem@ + ".a"@,
{
    let mut s = string_from("lib");
    push_str(&mut s, stem);
    push_str(&mut s, ".a");
    s
}

/// Which file a successful compilation produced.
#[derive(Clone, Copy, Debug, PartialEq, Eq, Structural)]
pub enum OutputChoice {
    /// The expected artifact (`artifact_filename`).
    Artifact,
    /// The static library (`archive_filename`).
    Archive,
}

/// The output of a compiler run that exited successfully: the expected
/// artifact when it exists, else the static library when that exists, else
/// a failure naming the missing artifact (as its path prints) and the
/// compiler's error output.
pub fn choose_output(
    artifact_exists: bool,
    archive_exists: bool,
    artifact_shown: &str,
    stderr: &str,
    exit_code: Option<i32>,
) -> (r: Result<OutputChoice, CompileError>)
    ensures
        artifact_exists ==> r == Ok::<OutputChoice, CompileError>(OutputChoice::Artifact),
        !artifact_exists && archive_exists ==> r == Ok::<OutputChoice, CompileError>(OutputChoice::Archive),
        !artifact_exists && !archive_exists ==> (r matches Err(CompileError::CompilationFailed { stderr: m, exit_code: c })
            && c == exit_code && m@ == "compiler succeeded but output is missing: "@ + artifact_shown@
            + " (stderr: "@ + stderr@ + ")"@),
{
    if artifact_exists {
        Ok(OutputChoice::Artifact)
    } else if archive_exists {
        Ok(OutputChoice::Archive)
    } else {
        let mut m = string_from("compiler succeeded but output is missing: ");
        push_str(&mut m, artifact_shown);
        push_str(&mut m, " (stderr: ");
        push_str(&mut m, stderr);
        push_str(&mut m, ")");
        Err(CompileError::CompilationFailed { stderr: m, exit_code })
    }
}

/// How a header is made for a compiled source when none was written beside
/// the output and none sits beside the source.
#[derive(Clone, Copy, Debug, PartialEq, Eq, Structural)]
pub enum HeaderFallback {
    /// Run `cbindgen` over the source directory (Rust, when `cbindgen` is on `PATH`).
    Cbindgen,
    /// Take the header the compiler writes itself, if it is there (V).
    CompilerWritten,
    /// No header can be had for the language.
    Unsupported,
}

/// The way a header is made for a language; for Rust it depends on whether
/// `cbindgen` is found on `PATH`.
pub fn header_fallback(language: Language) -> (r: HeaderFallback)
    ensures
        language is Rust ==> r is Cbindgen || r is Unsupported,
        language is V ==> r is CompilerWritten,
        !(language is Rust) && !(language is V) ==> r is Unsupported,
{
    match language {
        Language::Rust => {
            if on_path("cbindgen") {
                HeaderFallback::Cbindgen
            } else {
                HeaderFallback::Unsupported
            }
        },
        Language::V => HeaderFallback::CompilerWritten,
        _ => HeaderFallback::Unsupported,
    }
}

/// The `cbindgen` arguments that write a C header for the crate in `dir`.
pub fn cbindgen_args(header: &str, dir: &str) -> (r: Vec<String>)
    ensures
        string_views(r@) == seq!["--lang"@, "c"@, "--output"@, header@, dir@],
{
    let mut v: Vec<String> = Vec::new();
    v.push(string_from("--lang"));
    v.push(string_from("c"));
    v.push(string_from("--output"));
    v.push(string_from(header));
    v.push(string_from(dir));
    assert(string_views(v@) =~= seq!["--lang"@, "c"@, "--output"@, header@, dir@]);
    v
}

/// An accepted extra argument is a plain ASCII option: it begins with `-`, is
/// not a response file, holds no whitespace or control character, is none of
/// the denied options (an `-O` level aside), and an `-I` path in it never
/// climbs with `..`.
pub proof fn law_accepted_arg_is_plain_option(arg: Seq<char>)
    requires
        compile_arg_allowed(arg),
    ensures
        starts_with(arg, "-"@),
        !starts_with(arg, "@"@),
        forall|k: int| 0 <= k < arg.len() ==> is_ascii_char(#[trigger] arg[k]) && !is_ascii_control(arg[k]) && !is_ascii_ws(arg[k]),
        !starts_with(arg, "-O"@) ==> !denied(to_ascii_lower(arg)),
        starts_with(arg, "-I"@) && arg.len() > 2 ==> !contains_seq(arg.skip(2), ".."@),
{
    reveal_strlit("-O");
    reveal_strlit("-I");
    reveal_strlit("-");
    if starts_with(arg, "-I"@) {
        assert(arg[1] == "-I"@[1]);
        assert(!starts_with(arg, "-O"@)) by {
            if starts_with(arg, "-O"@) {
                assert(arg[1] == "-O"@[1]);
            }
        }
    }
}

/// An accepted linker argument is an accepted compiler argument naming a
/// library or a library directory.
pub proof fn law_link_arg_is_compile_arg(arg: Seq<char>)
    requires
        link_arg_allowed(arg),
    ensures
        compile_arg_allowed(arg),
        starts_with(arg, "-l"@) || starts_with(arg, "-L"@),
{
}

/// The command asks for what a compilation is expected to leave. Where that
/// is an object file (`.o`), the compiler is told to stop at an object: `-c`
/// for the C++ and D drivers, `build-obj` for Zig, `-build-mode:obj` for Odin
/// (C is only preprocessed and Hare's `build` takes no such flag). For C++
/// the whole command is `-c -o <output> <input>`: neither assembly (`-S`)
/// nor preprocessed text (`-E`) is written to the output.
pub proof fn law_object_artifacts_are_requested(
    l: Language,
    input: Seq<char>,
    output: Seq<char>,
    stem: Seq<char>,
    os: TargetOs,
)
    requires
        spec_artifact_filename(l, stem, os) == stem + ".o"@,
    ensures
        (l == Language::Cpp || l == Language::D) ==> spec_to_c_args(l, input, output)[0] == "-c"@,
        l == Language::Zig ==> spec_to_c_args(l, input, output)[0] == "build-obj"@,
        l == Language::Odin ==> spec_to_c_args(l, input, output).contains("-build-mode:obj"@),
        l == Language::Cpp ==> spec_to_c_args(l, input, output) == seq!["-c"@, "-o"@, output, input],
        l == Language::Cpp ==> spec_to_c_args(l, input, output)[0] != "-S"@ && spec_to_c_args(l, input, output)[0]
            != "-E"@,
        l == Language::C || l == Language::Cpp || l == Language::Zig || l == Language::D || l == Language::Odin
            || l == Language::Hare,
{
    reveal_strlit(".o");
    reveal_strlit(".c");
    reveal_strlit(".a");
    reveal_strlit(".dll");
    reveal_strlit(".dylib");
    reveal_strlit(".so");
    reveal_strlit("-c");
    reveal_strlit("-S");
    reveal_strlit("-E");
    let a = spec_to_c_args(l, input, output);
    assert("-c"@[1] != "-S"@[1] && "-c"@[1] != "-E"@[1]);
    if l == Language::Odin {
        assert(a[3] == "-build-mode:obj"@);
    }
    if l == Language::V || l == Language::Nim || l == Language::CSharp || l == Language::Rust {
        let f = spec_artifact_filename(l, stem, os);
        assert(f.last() != (stem + ".o"@).last());
    }
}

} // verus!
