use equilibrium_ffi::detector::Language;
use equilibrium_ffi::imports::{generate_imports_from_content, GeneratedImport, ImportOptions};
use std::path::PathBuf;
use equilibrium_ffi::c_header::FunctionDef;
use equilibrium_ffi::imports::{header_names, render_imports};

const HEADER: &str = r#"
int add(int a, int b);
int multiply(int a, int b);
const char *label(const char *name);
void set_value(int *value);
typedef struct Pair {
    int left;
    int right;
} Pair;
Pair unsupported_pair(void);
"#;

fn header() -> PathBuf {
    PathBuf::from("include/math.h")
}

fn assert_contains(generated: &GeneratedImport, needle: &str) {
    assert!(
        generated.code.contains(needle),
        "generated {:?} wrapper did not contain {needle}:\n{}",
        generated.language,
        generated.code
    );
}

#[test]
fn generates_imports_for_all_detected_languages() {
    let header = header();
    let cases = [
        (Language::Rust, "extern \"C\"", "pub fn add"),
        (Language::Zig, "@cImport", "pub const add = c.add"),
        (Language::C, "#include \"math.h\"", "eq_math_add"),
        (Language::Cpp, "extern \"C\"", "eq_math_add"),
        (Language::CSharp, "DllImport", "public static extern int add"),
        (Language::D, "extern(C)", "int add"),
        (Language::Nim, "{.importc: \"add\", cdecl.}", "proc add"),
        (Language::Odin, "foreign import", "add :: proc"),
        (Language::Hare, "@symbol(\"add\")", "fn add"),
        (Language::V, "#flag -I", "fn C.add"),
    ];

    for (language, required, function) in cases {
        let generated =
            generate_imports_from_content(&header, HEADER, language, &ImportOptions::default())
                .unwrap();
        assert_contains(&generated, required);
        assert_contains(&generated, function);
        assert_eq!(generated.language, language);
        assert_eq!(generated.source_header, header);
    }
}

#[test]
fn import_generation_skips_unsupported_return_types_with_warnings() {
    let generated =
        generate_imports_from_content(&header(), HEADER, Language::Zig, &ImportOptions::default())
            .unwrap();

    assert!(!generated.code.contains("unsupported_pair"));
    assert!(generated
        .warnings
        .iter()
        .any(|warning| warning.contains("unsupported_pair")));
}

#[test]
fn import_generation_respects_allowlist() {
    let generated = generate_imports_from_content(
        &header(),
        HEADER,
        Language::Nim,
        &ImportOptions::default().allowlist_functions(["multiply"]),
    )
    .unwrap();

    assert!(generated.code.contains("multiply"));
    assert!(!generated.code.contains("add"));
}

#[test]
fn allowlist_leaves_out_warnings_of_other_functions() {
    let generated = generate_imports_from_content(
        &header(),
        HEADER,
        Language::Rust,
        &ImportOptions::default().allowlist_functions(["add"]),
    )
    .unwrap();
    assert!(generated.warnings.is_empty());
    assert!(generated.code.contains("pub fn add"));
    assert!(!generated.code.contains("multiply"));
}

#[test]
fn c_wrappers_forward_to_the_library() {
    let generated =
        generate_imports_from_content(&header(), HEADER, Language::C, &ImportOptions::default())
            .unwrap();
    assert!(generated.code.contains("eq_math_multiply"));
    assert_eq!(
        generated.warnings,
        vec![
            "Skipped function *label because its signature is not supported for generated imports",
            "Skipped function unsupported_pair because its signature is not supported for generated imports",
        ]
    );
}

#[test]
fn rendered_imports_name_the_header() {
    let names = header_names(&PathBuf::from("include/geo.h"));
    let functions = vec![FunctionDef {
        name: "area".to_string(),
        return_type: "int".to_string(),
        params: vec![("int".to_string(), "w".to_string()), ("int".to_string(), "h".to_string())],
    }];
    let code = render_imports(Language::C, &names, &functions);
    assert!(code.contains("#include \"geo.h\""));
    assert!(code.contains("eq_geo_area"));
    let empty = render_imports(Language::Zig, &names, &Vec::new());
    assert!(empty.contains("@cImport"));
    assert!(!empty.contains("area"));
}

#[test]
fn header_stems_follow_the_file_name() {
    let names = header_names(&PathBuf::from("dir/archive.tar.h"));
    assert_eq!(names.file_name.as_deref(), Some("archive.tar.h"));
    assert_eq!(names.file_stem.as_deref(), Some("archive.tar"));
    let hidden = header_names(&PathBuf::from(".config"));
    assert_eq!(hidden.file_stem.as_deref(), Some(".config"));
    let plain = header_names(&PathBuf::from("include/math"));
    assert_eq!(plain.file_stem.as_deref(), Some("math"));
    assert_eq!(plain.parent.as_deref(), Some("include"));
}
