use equilibrium_ffi::c_header::{c_type_to_rust, parse_c_header, parse_function_line, parse_typedef_line};
use equilibrium_ffi::c_header::{parse_typedef_enum, parse_typedef_struct};

#[test]
fn test_c_type_to_rust() {
    assert_eq!(c_type_to_rust("int"), "c_int");
    assert_eq!(c_type_to_rust("void"), "()");
    assert_eq!(c_type_to_rust("char *"), "*mut c_char");
    assert_eq!(c_type_to_rust("const char *"), "*const c_char");
}

#[test]
fn test_c_type_to_rust_extended() {
    assert_eq!(c_type_to_rust("unsigned int"), "c_uint");
    assert_eq!(c_type_to_rust("unsigned long"), "c_ulong");
    assert_eq!(c_type_to_rust("long long"), "c_longlong");
    assert_eq!(c_type_to_rust("size_t"), "usize");
    assert_eq!(c_type_to_rust("ssize_t"), "isize");
    assert_eq!(c_type_to_rust("bool"), "bool");
    assert_eq!(c_type_to_rust("float"), "c_float");
    assert_eq!(c_type_to_rust("double"), "c_double");
    assert_eq!(c_type_to_rust("void*"), "*mut c_void");
    // const stripping
    assert_eq!(c_type_to_rust("const int"), "c_int");
}

#[test]
fn test_parse_function() {
    let func = parse_function_line("int add(int a, int b);").unwrap();
    assert_eq!(func.name, "add");
    assert_eq!(func.return_type, "int");
    assert_eq!(func.params.len(), 2);
}

#[test]
fn test_parse_function_void_params() {
    let func = parse_function_line("void cleanup(void);").unwrap();
    assert_eq!(func.name, "cleanup");
    assert_eq!(func.return_type, "void");
    assert_eq!(func.params.len(), 0);
}

#[test]
fn test_parse_function_no_params() {
    let func = parse_function_line("int get_count();").unwrap();
    assert_eq!(func.name, "get_count");
    assert_eq!(func.return_type, "int");
    assert_eq!(func.params.len(), 0);
}

#[test]
fn test_parse_function_pointer_param() {
    let func = parse_function_line("int string_length(const char* str);").unwrap();
    assert_eq!(func.name, "string_length");
    assert_eq!(func.return_type, "int");
    assert_eq!(func.params.len(), 1);
}

#[test]
fn test_parse_typedef() {
    let (target, name) = parse_typedef_line("typedef int myint;").unwrap();
    assert_eq!(name, "myint");
    assert_eq!(target, "int");
}

#[test]
fn test_parse_header_with_guards() {
    // Preprocessor directives should be ignored; typedefs inside guards should parse
    let content = "#ifndef MYLIB_H\n#define MYLIB_H\ntypedef int myint;\nint add(int a, int b);\n#endif\n";
    let parsed = parse_c_header(content);
    assert_eq!(parsed.typedefs.len(), 1);
    assert_eq!(parsed.typedefs[0].name, "myint");
    assert_eq!(parsed.functions.len(), 1);
    assert_eq!(parsed.functions[0].name, "add");
}

#[test]
fn typedef_blocks_read_fields_and_variants() {
    let s = parse_typedef_struct("typedef struct {\n    int x;\n    char *name;\n} Item;").unwrap();
    assert_eq!(s.name, "Item");
    assert_eq!(s.fields.len(), 2);
    assert_eq!(s.fields[0], ("int".to_string(), "x".to_string()));
    let e = parse_typedef_enum("typedef enum {\n    A,\n    B = 4\n} Kind;").unwrap();
    assert_eq!(e.name, "Kind");
    assert_eq!(e.variants, vec![("A".to_string(), None), ("B".to_string(), Some("4".to_string()))]);
}

#[test]
fn pointer_types_become_raw_pointers() {
    for t in ["int *", "const int *", "char **", "void *", "const void *", "Widget*"] {
        let r = c_type_to_rust(t);
        assert!(r.starts_with("*mut ") || r.starts_with("*const "), "{t} -> {r}");
    }
    assert_eq!(c_type_to_rust("int *"), "*mut c_int");
    assert_eq!(c_type_to_rust("char **"), "*mut *mut c_char");
    assert_eq!(c_type_to_rust("const void *"), "*const c_void");
    assert_eq!(c_type_to_rust("Widget*"), "*mut Widget");
}

#[test]
fn typedef_blocks_are_recorded_as_aliases() {
    let h = parse_c_header("typedef struct {\n    int x;\n} Point;\ntypedef enum {\n    A\n} Kind;\nint area(Point p);\n");
    assert_eq!(h.structs.len(), 1);
    assert_eq!(h.enums.len(), 1);
    assert!(h.typedefs.iter().any(|t| t.name == "Point" && t.target == "struct Point"));
    assert!(h.typedefs.iter().any(|t| t.name == "Kind" && t.target == "enum Kind"));
    assert_eq!(h.functions.len(), 1);
    assert_eq!(h.functions[0].name, "area");
}

#[test]
fn test_const_prefix_dropped_from_value_types() {
    for t in ["int", "  unsigned long ", "size_t", "MyStruct", "struct point"] {
        let with_const = format!("const {}", t);
        assert_eq!(c_type_to_rust(&with_const), c_type_to_rust(t));
    }
    assert_eq!(c_type_to_rust("const   uint8_t"), "u8");
}

#[test]
fn test_pointer_to_type_is_mut_pointer() {
    for t in ["int", "char *", "MyStruct", " double ", "uint32_t"] {
        let ptr = format!("{}*", t);
        assert_eq!(c_type_to_rust(&ptr), format!("*mut {}", c_type_to_rust(t)));
    }
    assert_eq!(c_type_to_rust("foo_t*"), "*mut foo_t");
}
