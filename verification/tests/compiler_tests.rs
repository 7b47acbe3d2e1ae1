use equilibrium_ffi::compiler::{
    artifact_filename, compile_command_args, extra_compile_arg_allowed, extra_link_arg_allowed,
    validate_extra_args, CompileError, TargetOs,
};
use equilibrium_ffi::detector::Language;
use equilibrium_ffi::compiler::{ archive_filename, header_filename, output_stem, source_size_check, MAX_SOURCE_FILE_BYTES, };
use equilibrium_ffi::compiler::{choose_output, OutputChoice};
use equilibrium_ffi::compiler::{cbindgen_args, header_fallback, HeaderFallback};

#[test]
fn test_compile_error_display() {
    let err = CompileError::CompilerNotFound {
        language: Language::V,
    };
    assert!(err.message().contains("V"));
}

#[test]
fn test_compile_error_failed_display() {
    let err = CompileError::CompilationFailed {
        stderr: "syntax error".to_string(),
        exit_code: Some(1),
    };
    let msg = err.message();
    assert!(msg.contains("syntax error"));
    assert!(msg.contains('1'));
}

#[test]
fn test_rejects_dangerous_compile_args() {
    assert!(!extra_compile_arg_allowed("-fplugin=/tmp/x.so"));
    assert!(!extra_compile_arg_allowed("@response"));
    assert!(!extra_compile_arg_allowed("-o"));
    assert!(!extra_compile_arg_allowed("-ofoo.o"));
    assert!(!extra_compile_arg_allowed("-Wl,-rpath,/tmp"));
    assert!(!extra_compile_arg_allowed("-fPIC\n-o/tmp/x"));
    assert!(extra_compile_arg_allowed("-fPIC"));
    assert!(extra_compile_arg_allowed("-O2"));
    assert!(extra_compile_arg_allowed("-std=c11"));
    assert!(extra_compile_arg_allowed("-I/usr/include"));
    assert!(!extra_compile_arg_allowed("-I../secret"));
}

#[test]
fn compile_error_messages() {
    let failed = CompileError::CompilationFailed {
        stderr: "boom".to_string(),
        exit_code: Some(-2),
    };
    assert_eq!(failed.message(), "Compilation failed (exit Some(-2)): boom");
    let unknown_code = CompileError::CompilationFailed {
        stderr: String::new(),
        exit_code: None,
    };
    assert_eq!(unknown_code.message(), "Compilation failed (exit None): ");
    let unsupported = CompileError::UnsupportedCOutput {
        language: Language::CSharp,
    };
    assert_eq!(unsupported.message(), "CSharp doesn't support direct C output");
    let missing = CompileError::CompilerNotFound {
        language: Language::Zig,
    };
    assert_eq!(missing.message(), "Compiler for Zig not found");
    let io = CompileError::Io(std::io::Error::new(std::io::ErrorKind::Other, "disk"));
    assert_eq!(io.message(), "IO error: disk");
}

#[test]
fn rejected_extra_argument_is_named() {
    let args = vec!["-O2".to_string(), "-fplugin=x.so".to_string(), "@more".to_string()];
    match validate_extra_args(&args) {
        Err(CompileError::InvalidExtraArg { arg }) => assert_eq!(arg, "-fplugin=x.so"),
        other => panic!("unexpected {other:?}"),
    }
    let err = validate_extra_args(&args).unwrap_err();
    assert_eq!(err.message(), "rejected extra compiler argument: -fplugin=x.so");
    assert!(validate_extra_args(&["-fPIC".to_string(), "-DNDEBUG".to_string()]).is_ok());
    assert!(validate_extra_args(&[]).is_ok());
}

#[test]
fn more_argument_checks() {
    assert!(!extra_compile_arg_allowed(""));
    assert!(!extra_compile_arg_allowed("main.c"));
    assert!(!extra_compile_arg_allowed("--output=x"));
    assert!(!extra_compile_arg_allowed("-B/tmp"));
    assert!(!extra_compile_arg_allowed("-femit-bin=x"));
    assert!(!extra_compile_arg_allowed("-Xlinker"));
    assert!(!extra_compile_arg_allowed("-fPIC -o x"));
    assert!(!extra_compile_arg_allowed("-Oé"));
    assert!(extra_compile_arg_allowed("-objc"));
    assert!(extra_compile_arg_allowed("--std=c11"));
    assert!(extra_compile_arg_allowed("-Os"));
    assert!(!extra_compile_arg_allowed("-O-"));
    assert!(extra_link_arg_allowed("-lm"));
    assert!(extra_link_arg_allowed("-L/usr/lib"));
    assert!(!extra_link_arg_allowed("-fPIC"));
    assert!(!extra_link_arg_allowed("-Wl,-rpath,/tmp"));
}

#[test]
fn artifact_names() {
    assert_eq!(artifact_filename(Language::C, "math", TargetOs::Other), "math.o");
    assert_eq!(artifact_filename(Language::V, "math", TargetOs::Other), "math.c");
    assert_eq!(artifact_filename(Language::Nim, "math", TargetOs::Other), "math.a");
    assert_eq!(artifact_filename(Language::CSharp, "math", TargetOs::MacOs), "math.dll");
    assert_eq!(artifact_filename(Language::Rust, "math", TargetOs::Windows), "math.dll");
    assert_eq!(artifact_filename(Language::Rust, "math", TargetOs::MacOs), "math.dylib");
    assert_eq!(artifact_filename(Language::Rust, "math", TargetOs::Other), "math.so");
}

#[test]
fn command_args_append_extra() {
    let args = compile_command_args(Language::C, "a.c", "a.o", &["-O2".to_string()]);
    assert_eq!(args, vec!["-E", "-o", "a.o", "a.c", "-O2"]);
}

#[test]
fn output_files_and_sizes() {
    assert!(source_size_check(MAX_SOURCE_FILE_BYTES).is_ok());
    assert_eq!(
        source_size_check(MAX_SOURCE_FILE_BYTES + 1).unwrap_err(),
        "source file too large (67108865 bytes; max 67108864 bytes)"
    );
    assert_eq!(output_stem(Some("math")), "math");
    assert_eq!(output_stem(None), "output");
    assert_eq!(header_filename("math"), "math.h");
    assert_eq!(archive_filename("math"), "libmath.a");
}

#[test]
fn output_choice_after_a_successful_run() {
    assert_eq!(choose_output(true, true, "o/m.o", "", Some(0)).unwrap(), OutputChoice::Artifact);
    assert_eq!(choose_output(false, true, "o/m.o", "", Some(0)).unwrap(), OutputChoice::Archive);
    match choose_output(false, false, "o/m.o", "warn", Some(0)) {
        Err(CompileError::CompilationFailed { stderr, exit_code }) => {
            assert_eq!(stderr, "compiler succeeded but output is missing: o/m.o (stderr: warn)");
            assert_eq!(exit_code, Some(0));
        }
        other => panic!("unexpected {other:?}"),
    }
}

#[test]
fn header_fallbacks() {
    let rust = header_fallback(Language::Rust);
    assert!(rust == HeaderFallback::Cbindgen || rust == HeaderFallback::Unsupported);
    assert_eq!(header_fallback(Language::V), HeaderFallback::CompilerWritten);
    assert_eq!(header_fallback(Language::Zig), HeaderFallback::Unsupported);
    assert_eq!(
        cbindgen_args("out/m.h", "src"),
        vec!["--lang", "c", "--output", "out/m.h", "src"]
    );
}
