use equilibrium_ffi::detector::{
    compiler_candidates, compiler_from_probes, detect_language, find_compiler_binary, first_found, first_output_line, is_skipped_directory,
    language_for_extension, Language,
};
use std::path::Path;

#[test]
fn test_detect_v() {
    let path = Path::new("mylib.v");
    assert_eq!(detect_language(path), Some(Language::V));
}

#[test]
fn test_detect_zig() {
    let path = Path::new("mylib.zig");
    assert_eq!(detect_language(path), Some(Language::Zig));
}

#[test]
fn test_detect_cpp() {
    assert_eq!(detect_language(Path::new("foo.cpp")), Some(Language::Cpp));
    assert_eq!(detect_language(Path::new("foo.cxx")), Some(Language::Cpp));
    assert_eq!(detect_language(Path::new("foo.cc")), Some(Language::Cpp));
}

#[test]
fn test_detect_d() {
    assert_eq!(detect_language(Path::new("foo.d")), Some(Language::D));
    assert_eq!(detect_language(Path::new("foo.di")), Some(Language::D));
}

#[test]
fn test_detect_nim() {
    assert_eq!(detect_language(Path::new("foo.nim")), Some(Language::Nim));
}

#[test]
fn test_detect_odin() {
    assert_eq!(detect_language(Path::new("foo.odin")), Some(Language::Odin));
}

#[test]
fn test_detect_hare() {
    assert_eq!(detect_language(Path::new("foo.ha")), Some(Language::Hare));
}

#[test]
fn test_detect_c_and_header() {
    assert_eq!(detect_language(Path::new("main.c")), Some(Language::C));
    assert_eq!(detect_language(Path::new("lib.h")), Some(Language::C));
}

#[test]
fn test_detect_rust() {
    assert_eq!(detect_language(Path::new("main.rs")), Some(Language::Rust));
}

#[test]
fn test_detect_csharp() {
    assert_eq!(
        detect_language(Path::new("Program.cs")),
        Some(Language::CSharp)
    );
}

#[test]
fn test_detect_unknown() {
    assert_eq!(detect_language(Path::new("foo.py")), None);
    assert_eq!(detect_language(Path::new("foo.js")), None);
    assert_eq!(detect_language(Path::new("Makefile")), None);
}

#[test]
fn test_detect_case_insensitive_extension() {
    assert_eq!(detect_language(Path::new("FOO.C")), Some(Language::C));
    assert_eq!(detect_language(Path::new("main.RS")), Some(Language::Rust));
}

#[test]
fn test_all_languages() {
    assert_eq!(Language::all().len(), 10);
}

#[test]
fn test_to_c_args_c_preprocess() {
    let args = Language::C.to_c_args("foo.c", "foo.i");
    assert!(args.contains(&"-E".to_string()));
    assert!(args.contains(&"foo.c".to_string()));
    assert!(args.contains(&"foo.i".to_string()));
}

#[test]
fn test_to_c_args_zig_no_duplicate_flag() {
    let args = Language::Zig.to_c_args("foo.zig", "foo.o");
    assert!(args.contains(&"build-obj".to_string()));
    let femit_count = args.iter().filter(|a| a.starts_with("-femit-bin")).count();
    assert_eq!(femit_count, 1, "should have exactly one -femit-bin flag");
}

#[test]
fn every_listed_extension_is_detected_as_its_language() {
    for lang in Language::all() {
        for ext in lang.extensions() {
            assert_eq!(language_for_extension(ext), Some(*lang));
            assert_eq!(language_for_extension(&ext.to_uppercase()), Some(*lang));
        }
    }
    assert_eq!(language_for_extension("py"), None);
    assert_eq!(language_for_extension(""), None);
}

#[test]
fn cli_names_read_back() {
    for lang in Language::all() {
        assert_eq!(Language::from_cli_name(lang.cli_name()), Some(*lang));
        assert_eq!(Language::from_cli_name(&lang.cli_name().to_uppercase()), Some(*lang));
    }
    assert_eq!(Language::from_cli_name("C#"), Some(Language::CSharp));
    assert_eq!(Language::from_cli_name("vlang"), Some(Language::V));
    assert_eq!(Language::from_cli_name("c++"), Some(Language::Cpp));
    assert_eq!(Language::from_cli_name("python"), None);
}

#[test]
fn compiler_names_and_fallbacks() {
    assert_eq!(Language::D.default_compiler(), "ldc2");
    assert_eq!(Language::D.alternative_compilers(), &["dmd", "gdc"]);
    assert_eq!(Language::C.default_compiler(), "clang");
    assert_eq!(Language::C.alternative_compilers(), &["gcc", "cc"]);
    assert_eq!(Language::Cpp.alternative_compilers(), &["g++", "c++"]);
    assert!(Language::Zig.alternative_compilers().is_empty());
    assert_eq!(Language::CSharp.debug_name(), "CSharp");
}

#[test]
fn found_compiler_is_a_candidate() {
    for lang in Language::all() {
        if let Some(found) = find_compiler_binary(*lang) {
            assert!(
                found == lang.default_compiler()
                    || lang.alternative_compilers().contains(&found.as_str())
            );
        }
    }
}

#[test]
fn to_c_args_of_each_language() {
    assert_eq!(
        Language::V.to_c_args("m.v", "m.c"),
        vec!["-o", "m.c", "-backend", "c", "m.v"]
    );
    assert_eq!(
        Language::Nim.to_c_args("m.nim", "m.a"),
        vec!["c", "--nimcache:.", "-o:m.a", "m.nim"]
    );
    assert_eq!(
        Language::Odin.to_c_args("m.odin", "m.o"),
        vec!["build", "m.odin", "-out:m.o", "-build-mode:obj"]
    );
    assert_eq!(
        Language::D.to_c_args("m.d", "m.o"),
        vec!["-c", "-of=m.o", "-HC", "m.d"]
    );
}

#[test]
fn version_first_line() {
    assert_eq!(
        first_output_line("clang version 17.0.0\nTarget: x86_64\n"),
        Some("clang version 17.0.0".to_string())
    );
    assert_eq!(first_output_line("gcc 13\r\nmore"), Some("gcc 13".to_string()));
    assert_eq!(first_output_line(""), None);
}

#[test]
fn skipped_directories() {
    for name in ["target", "node_modules", ".git", "build", "dist", "zig-cache", "nimcache"] {
        assert!(is_skipped_directory(name));
    }
    assert!(!is_skipped_directory("src"));
    assert!(!is_skipped_directory("Target"));
}

#[test]
fn test_first_found_picks_earliest_candidate() {
    assert_eq!(first_found(&[false, true, true]), Some(1));
    assert_eq!(first_found(&[true, false]), Some(0));
    assert_eq!(first_found(&[false, false, false]), None);
    assert_eq!(first_found(&[]), None);
}

#[test]
fn test_compiler_candidates_default_then_alternatives() {
    assert_eq!(compiler_candidates(Language::D), vec!["ldc2", "dmd", "gdc"]);
    assert_eq!(compiler_candidates(Language::C), vec!["clang", "gcc", "cc"]);
    assert_eq!(compiler_candidates(Language::Cpp), vec!["clang++", "g++", "c++"]);
    assert_eq!(compiler_candidates(Language::Zig), vec![Language::Zig.default_compiler()]);
}

#[test]
fn test_compiler_from_probes_takes_first_found() {
    assert_eq!(compiler_from_probes(Language::D, &[false, true, true]), Some("dmd".to_string()));
    assert_eq!(compiler_from_probes(Language::C, &[true, true, false]), Some("clang".to_string()));
    assert_eq!(compiler_from_probes(Language::Cpp, &[false, false, true]), Some("c++".to_string()));
    assert_eq!(compiler_from_probes(Language::Cpp, &[false, false, false]), None);
}
