use equilibrium_ffi::detector::Language;
use equilibrium_ffi::loader::{LoadError, LoadOptions};
use equilibrium_ffi::bindings::GeneratedBinding;
use equilibrium_ffi::exports::ExportSource;
use equilibrium_ffi::loader::{bindings_wanted, import_source, load_warnings, output_subdir, LoadedModule};
use equilibrium_ffi::imports::GeneratedImport;
use std::path::PathBuf;

#[test]
fn test_load_options() {
    let opts = LoadOptions::default();
    assert!(opts.generate_bindings);
    assert!(opts.compile);
    assert!(opts.link);
}

#[test]
fn load_options_builders() {
    let opts = LoadOptions::default()
        .exports(["add", "multiply"])
        .generate_bindings(false)
        .output_dir("out")
        .config_path("equilibrium.toml")
        .consumer_languages([Language::Zig, Language::Nim]);
    assert_eq!(opts.exports, vec!["add", "multiply"]);
    assert!(!opts.generate_bindings);
    assert_eq!(opts.output_dir, Some(std::path::PathBuf::from("out")));
    assert_eq!(opts.config_path, Some(std::path::PathBuf::from("equilibrium.toml")));
    assert_eq!(opts.consumer_languages, vec![Language::Zig, Language::Nim]);
    assert!(opts.compile);
}

#[test]
fn load_error_messages() {
    assert_eq!(
        LoadError::CompilerNotFound(Language::Nim).message(),
        "Compiler for Nim not found"
    );
    assert_eq!(
        LoadError::CompilationFailed(Language::D, "bad".to_string()).message(),
        "Compilation of D failed: bad"
    );
    assert_eq!(
        LoadError::BindingFailed("x".to_string()).message(),
        "Binding generation failed: x"
    );
    assert_eq!(
        LoadError::ExportFailed("y".to_string()).message(),
        "Export discovery failed: y"
    );
    assert_eq!(
        LoadError::ImportFailed("z".to_string()).message(),
        "Import generation failed: z"
    );
    assert_eq!(
        LoadError::UnknownLanguage(std::path::PathBuf::from("a.py")).message(),
        "Unknown language for file: a.py"
    );
}

#[test]
fn loaded_module_bindings_accessors() {
    let mut module = LoadedModule {
        output_path: PathBuf::from("out/m.o"),
        header_path: None,
        bindings: None,
        language: Language::C,
        source_path: PathBuf::from("m.c"),
        exports: vec![],
        export_source: ExportSource::AllFunctions,
        warnings: vec![],
        imports: vec![],
    };
    assert!(!module.has_bindings());
    assert_eq!(module.bindings_code(), None);
    module.bindings = Some(GeneratedBinding {
        code: "extern \"C\" {}".to_string(),
        source_header: PathBuf::from("m.h"),
        warnings: vec![],
    });
    assert!(module.has_bindings());
    assert_eq!(module.bindings_code(), Some("extern \"C\" {}"));
    assert_eq!(output_subdir(Language::CSharp), "csharp");
    assert_eq!(output_subdir(Language::Cpp), "cpp");
}

#[test]
fn load_error_io_message() {
    let err = LoadError::Io {
        path: PathBuf::from("out"),
        error: std::io::Error::new(std::io::ErrorKind::PermissionDenied, "denied"),
    };
    assert_eq!(err.message(), "IO error for out: denied");
}

#[test]
fn test_bindings_wanted_needs_header_and_flag() {
    let header = Some(PathBuf::from("out/lib.h"));
    let on = LoadOptions::default();
    let off = LoadOptions::default().generate_bindings(false);
    assert!(bindings_wanted(&header, &on));
    assert!(!bindings_wanted(&header, &off));
    assert!(!bindings_wanted(&None, &on));
}

#[test]
fn test_import_source_prefers_header() {
    let source = PathBuf::from("src/lib.zig");
    let header = Some(PathBuf::from("out/lib.h"));
    assert_eq!(import_source(&header, &source), PathBuf::from("out/lib.h"));
    assert_eq!(import_source(&None, &source), PathBuf::from("src/lib.zig"));
}

#[test]
fn test_load_warnings_exports_first_then_imports() {
    let import = |w: &[&str]| GeneratedImport {
        code: String::new(),
        language: Language::C,
        source_header: PathBuf::from("lib.h"),
        warnings: w.iter().map(|s| s.to_string()).collect(),
    };
    let imports = vec![import(&["a"]), import(&[]), import(&["b", "c"])];
    let r = load_warnings(vec!["export".to_string()], &imports);
    assert_eq!(r, vec!["export", "a", "b", "c"]);
    assert!(load_warnings(Vec::new(), &[]).is_empty());
}
