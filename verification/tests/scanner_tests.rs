use equilibrium_ffi::scanner::{
    main_header_index, mod_declaration, mod_rs_content, module_name, name_excluded,
    scan_c_libraries, AutoBindingOptions, LibraryScanner,
};
use std::path::PathBuf;

fn owned(items: &[&str]) -> Vec<String> {
    items.iter().map(|s| s.to_string()).collect()
}

#[test]
fn default_patterns_exclude_internal_and_private_headers() {
    let patterns = AutoBindingOptions::default().exclude_patterns;
    assert!(name_excluded("api_internal.h", &patterns));
    assert!(name_excluded("x_private.h", &patterns));
    assert!(!name_excluded("api.h", &patterns));
    assert!(name_excluded("test_util.h", &patterns));
    assert!(name_excluded("test_gpio.h", &patterns));
    assert!(name_excluded("test_*.h", &patterns));
    assert!(!name_excluded("test_.c", &patterns));
    assert!(!name_excluded("mytest_x.h", &patterns));
    assert!(name_excluded("ac", &owned(&["a*c"])));
    assert!(name_excluded("abbbc", &owned(&["a*c"])));
    assert!(!name_excluded("c", &owned(&["c*c"])));
    assert!(name_excluded("gen_x.h", &owned(&["gen_*"])));
    assert!(name_excluded("exact.h", &owned(&["exact.h"])));
}

#[test]
fn scanner_excludes_by_file_name() {
    let scanner = LibraryScanner::new("libs");
    assert!(scanner.should_exclude(&PathBuf::from("libs/mylib/api_internal.h")));
    assert!(!scanner.should_exclude(&PathBuf::from("libs/mylib/api.h")));
    assert!(scanner.should_exclude(&PathBuf::from("inc/test_gpio.h")));
    assert!(scanner.should_exclude(&PathBuf::from("inc/uart_private.h")));
    assert!(scanner.header_wanted(Some("h"), "api.h"));
    assert!(!scanner.header_wanted(Some("c"), "api.c"));
    assert!(!scanner.header_wanted(None, "h"));
    assert!(!scanner.header_wanted(Some("h"), "api_private.h"));
}

#[test]
fn main_header_prefers_api_then_short_names() {
    assert_eq!(main_header_index(&owned(&[])), None);
    assert_eq!(main_header_index(&owned(&["utils", "api"])), Some(1));
    assert_eq!(main_header_index(&owned(&["a_very_long_header_name", "gpio", "io"])), Some(2));
    assert_eq!(main_header_index(&owned(&["public_x", "api"])), Some(1));
    assert_eq!(main_header_index(&owned(&["uart", "gpio"])), Some(0));
    let scanner = scan_c_libraries("libs");
    let headers = vec![PathBuf::from("lib/utils.h"), PathBuf::from("lib/api.h")];
    assert_eq!(scanner.find_main_header(&headers), Some(PathBuf::from("lib/api.h")));
    assert_eq!(scanner.find_main_header(&Vec::new()), None);
}

#[test]
fn scanner_options() {
    let scanner = scan_c_libraries("libs").with_options(AutoBindingOptions {
        recursive: false,
        ..Default::default()
    });
    assert!(!scanner.options.recursive);
    assert!(scanner.options.generate_mod_rs);
    assert_eq!(scanner.root, PathBuf::from("libs"));
}

#[test]
fn module_names_and_mod_rs() {
    assert_eq!(module_name("stm32f4xx-hal.v2"), "stm32f4xx_hal_v2");
    assert_eq!(mod_declaration("test"), "pub mod test;");
    let content = mod_rs_content(&owned(&["pub mod b;", "pub mod a;", "pub mod b;"]));
    assert_eq!(
        content,
        "// Auto-generated by equilibrium-ffi\n// Re-exports all discovered C libraries\n\npub mod a;\npub mod b;\n"
    );
    assert_eq!(
        mod_rs_content(&owned(&["pub mod a;", "pub mod b;"])),
        mod_rs_content(&owned(&["pub mod b;", "pub mod a;"]))
    );
}
