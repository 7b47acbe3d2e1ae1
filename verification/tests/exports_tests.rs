use equilibrium_ffi::detector::Language;
use equilibrium_ffi::exports::{
    choose_exports, dedupe, discover_from_content, signature_supported, ExportOptions,
    ExportSource,
};
use equilibrium_ffi::exports::{
    configured_exports, target_language_matches, ConfigTarget, ExportError,
};

const TWO_RUST_FUNCTIONS: &str = "
pub fn add(a: i32, b: i32) -> i32 {
    a + b
}

pub fn multiply(a: i32, b: i32) -> i32 {
    a * b
}
";

#[test]
fn rust_explicit_exports_use_ffi_attribute() {
    let discovery = discover_from_content(
        Language::Rust,
        "
#[ffi]
pub fn add(a: i32, b: i32) -> i32 {
    a + b
}

pub fn helper(a: i32) -> i32 {
    a
}
",
    );
    assert_eq!(discovery.exports, vec!["add"]);
    assert_eq!(discovery.source, ExportSource::ExplicitMarkers);
}

#[test]
fn zig_explicit_exports_use_pub_export_functions() {
    let discovery = discover_from_content(
        Language::Zig,
        "
pub export fn add(a: i32, b: i32) i32 {
    return a + b;
}

fn helper(a: i32) i32 {
    return a;
}
",
    );
    assert_eq!(discovery.exports, vec!["add"]);
    assert_eq!(discovery.source, ExportSource::ExplicitMarkers);
}

#[test]
fn nim_explicit_exports_use_export_pragmas() {
    let discovery = discover_from_content(
        Language::Nim,
        "
proc add*(a, b: cint): cint {.exportc, cdecl.} =
  return a + b

proc helper(a: cint): cint =
  return a
",
    );
    assert_eq!(discovery.exports, vec!["add"]);
    assert_eq!(discovery.source, ExportSource::ExplicitMarkers);
}

#[test]
fn d_explicit_exports_use_extern_c_export() {
    let discovery = discover_from_content(
        Language::D,
        "
extern(C) export int add(int a, int b)
{
    return a + b;
}

int helper(int a)
{
    return a;
}
",
    );
    assert_eq!(discovery.exports, vec!["add"]);
    assert_eq!(discovery.source, ExportSource::ExplicitMarkers);
}

#[test]
fn c_declarations_are_explicit_exports() {
    let discovery = discover_from_content(
        Language::C,
        "
int add(int a, int b);
static int helper(int a);
",
    );
    assert_eq!(discovery.exports, vec!["add"]);
    assert_eq!(discovery.source, ExportSource::ExplicitMarkers);
}

#[test]
fn unmarked_file_falls_back_to_all_top_level_functions() {
    let discovery = discover_from_content(Language::Rust, TWO_RUST_FUNCTIONS);
    assert_eq!(discovery.exports, vec!["add", "multiply"]);
    assert_eq!(discovery.source, ExportSource::AllFunctions);
}

#[test]
fn api_exports_override_config_and_fallback() {
    let options = ExportOptions::default().exports(["add"]);
    let discovery = choose_exports(
        &options.exports,
        Some(vec!["multiply".to_string()]),
        Language::Rust,
        Some(TWO_RUST_FUNCTIONS),
    );
    assert_eq!(discovery.exports, vec!["add"]);
    assert_eq!(discovery.source, ExportSource::Requested);
}

#[test]
fn config_exports_override_fallback() {
    let discovery = choose_exports(
        &Vec::new(),
        Some(vec!["multiply".to_string()]),
        Language::Rust,
        Some(TWO_RUST_FUNCTIONS),
    );
    assert_eq!(discovery.exports, vec!["multiply"]);
    assert_eq!(discovery.source, ExportSource::Config);
}

#[test]
fn unsupported_fallback_signatures_are_reported_as_warnings() {
    let discovery = discover_from_content(
        Language::Rust,
        "
pub fn add(a: i32, b: i32) -> i32 {
    a + b
}

pub fn label(name: String) -> String {
    name
}
",
    );
    assert_eq!(discovery.exports, vec!["add"]);
    assert!(discovery
        .warnings
        .iter()
        .any(|warning| warning.contains("label")));
    assert_eq!(
        discovery.warnings,
        vec!["skipped export label because its signature is not C ABI safe"]
    );
}

#[test]
fn requested_exports_lose_repeats() {
    let discovery = choose_exports(
        &vec!["add".to_string(), "sub".to_string(), "add".to_string()],
        None,
        Language::C,
        None,
    );
    assert_eq!(discovery.exports, vec!["add", "sub"]);
    assert!(discovery.warnings.is_empty());
}

#[test]
fn dedupe_keeps_first_occurrences() {
    let values = vec!["b", "a", "b", "c", "a"]
        .into_iter()
        .map(String::from)
        .collect::<Vec<_>>();
    let once = dedupe(values);
    assert_eq!(once, vec!["b", "a", "c"]);
    assert_eq!(dedupe(once.clone()), once);
    assert!(dedupe(Vec::new()).is_empty());
}

#[test]
fn rust_signature_support() {
    assert!(signature_supported("pub fn add(a: i32, b: i32) -> i32 {", Language::Rust));
    assert!(!signature_supported("pub fn label(name: String) -> String {", Language::Rust));
    assert!(signature_supported("pub fn noop() {", Language::Rust));
}

#[test]
fn explicit_markers_win_over_unmarked_functions_in_zig() {
    let discovery = discover_from_content(
        Language::Zig,
        "pub fn a() void {}\npub export fn b() void {}\nexport fn c() void {}\n",
    );
    assert_eq!(discovery.source, ExportSource::ExplicitMarkers);
    assert!(discovery.exports.contains(&"b".to_string()));
    assert!(!discovery.exports.contains(&"a".to_string()));
}

#[test]
fn configured_exports_come_from_the_first_matching_target() {
    let targets = vec![
        ConfigTarget {
            language: Some("zig".to_string()),
            has_matching_source: true,
            exports: Some(vec!["a".to_string()]),
        },
        ConfigTarget {
            language: Some("RUST".to_string()),
            has_matching_source: true,
            exports: None,
        },
        ConfigTarget {
            language: None,
            has_matching_source: false,
            exports: Some(vec!["b".to_string()]),
        },
        ConfigTarget {
            language: Some("Rust".to_string()),
            has_matching_source: true,
            exports: Some(vec!["c".to_string(), "d".to_string(), "c".to_string()]),
        },
    ];
    assert_eq!(configured_exports(&targets, Language::Rust), Some(vec!["c".to_string(), "d".to_string()]));
    assert_eq!(configured_exports(&targets, Language::Zig), Some(vec!["a".to_string()]));
    assert_eq!(configured_exports(&targets, Language::Nim), None);
    assert!(target_language_matches(Some("NIM"), Language::Nim));
    assert!(target_language_matches(None, Language::Nim));
    assert!(!target_language_matches(Some("nimrod"), Language::Nim));
}

#[test]
fn export_error_messages() {
    let io = ExportError::Io {
        path: std::path::PathBuf::from("src/math.rs"),
        error: std::io::Error::new(std::io::ErrorKind::NotFound, "gone"),
    };
    assert_eq!(io.message(), "failed to read exports from src/math.rs: gone");
    let config = ExportError::Config {
        path: std::path::PathBuf::from("equilibrium.toml"),
        message: "bad key".to_string(),
    };
    assert_eq!(config.message(), "failed to read config equilibrium.toml: bad key");
}
