//! Rust `extern "C"` bindings generated from the declarations of a C header.

use vstd::prelude::*;

use crate::c_header::{
    EnumDef, EnumModel, FunctionDef, FunctionModel, HeaderModel, ParsedHeader, StructDef,
    StructModel, TypedefDef, TypedefModel, rust_type, rust_type_of, spec_parse_header,
    try_parse_c_header,
};
use crate::paths::{buf_path, display_string, path_display_text, to_path_buf};
use crate::text::{
    chars_of, contains_seq, is_control, is_control_char, join, join_chars, list_contains, occurs_at, push_chars, push_str,
    starts_with,
    starts_with_str, string_from, string_views, views,
};

verus! {

broadcast use vstd::string::group_string_axioms;

/// Options for binding generation.
#[derive(Clone, Debug)]
pub struct BindingOptions {
    /// Module name for the generated bindings.
    pub module_name: Option<String>,
    /// Additional include paths.
    pub include_paths: Vec<std::path::PathBuf>,
    /// Functions to allowlist (if empty, include all).
    pub allowlist_functions: Vec<String>,
    /// Types to allowlist (if empty, include all).
    pub allowlist_types: Vec<String>,
    /// Derive `Debug` on generated structs.
    pub derive_debug: bool,
    /// Derive `Default` on generated structs.
    pub derive_default: bool,
}

impl Default for BindingOptions {
    fn default() -> (r: Self)
        ensures
            r.module_name is None,
            r.include_paths@.len() == 0,
            r.allowlist_functions@.len() == 0,
            r.allowlist_types@.len() == 0,
            !r.derive_debug,
            !r.derive_default,
    {
        BindingOptions {
            module_name: None,
            include_paths: Vec::new(),
            allowlist_functions: Vec::new(),
            allowlist_types: Vec::new(),
            derive_debug: false,
            derive_default: false,
        }
    }
}

/// A generated Rust binding.
#[derive(Clone, Debug)]
pub struct GeneratedBinding {
    /// The generated Rust code.
    pub code: String,
    /// The source header file.
    pub source_header: std::path::PathBuf,
    /// Any warnings during generation.
    pub warnings: Vec<String>,
}

/// A name passes an allowlist when the list is empty or holds the name.
pub open spec fn includes(name: Seq<char>, allow: Seq<Seq<char>>) -> bool {
    allow.len() == 0 || allow.contains(name)
}

/// One `enum` variant line.
pub open spec fn variant_code(v: (Seq<char>, Option<Seq<char>>)) -> Seq<char> {
    match v.1 {
        Some(value) => "    "@ + v.0 + " = "@ + value + ",\n"@,
        None => "    "@ + v.0 + ",\n"@,
    }
}

pub open spec fn variants_code(vs: Seq<(Seq<char>, Option<Seq<char>>)>) -> Seq<char>
    decreases vs.len(),
{
    if vs.len() == 0 {
        seq![]
    } else {
        variants_code(vs.drop_last()) + variant_code(vs.last())
    }
}

/// A `#[repr(C)]` Rust enum for a C enum.
pub open spec fn enum_code(e: EnumModel) -> Seq<char> {
    "#[repr(C)]\n"@ + "#[derive(Debug, Copy, Clone, PartialEq, Eq)]\n"@ + "pub enum "@ + e.name
        + " {\n"@ + variants_code(e.variants) + "}\n"@
}

/// One struct field line.
pub open spec fn field_code(f: (Seq<char>, Seq<char>)) -> Seq<char> {
    "    pub "@ + f.1 + ": "@ + rust_type(f.0) + ",\n"@
}

pub open spec fn fields_code(fs: Seq<(Seq<char>, Seq<char>)>) -> Seq<char>
    decreases fs.len(),
{
    if fs.len() == 0 {
        seq![]
    } else {
        fields_code(fs.drop_last()) + field_code(fs.last())
    }
}

/// The derives of a generated struct.
pub open spec fn struct_derives(debug: bool, default: bool) -> Seq<Seq<char>> {
    let base = seq!["Copy"@, "Clone"@];
    let with_debug = if debug { base.push("Debug"@) } else { base };
    if default { with_debug.push("Default"@) } else { with_debug }
}

/// A `#[repr(C)]` Rust struct for a C struct.
pub open spec fn struct_code(d: StructModel, debug: bool, default: bool) -> Seq<char> {
    "#[derive("@ + join(struct_derives(debug, default), ", "@) + ")]\n"@ + "#[repr(C)]\n"@
        + "pub struct "@ + d.name + " {\n"@ + fields_code(d.fields) + "}\n"@
}

/// A Rust type alias for a C typedef.
pub open spec fn typedef_code(t: TypedefModel) -> Seq<char> {
    "pub type "@ + t.name + " = "@ + rust_type(t.target) + ";\n"@
}

/// A function parameter in Rust syntax.
pub open spec fn param_code(p: (Seq<char>, Seq<char>)) -> Seq<char> {
    p.1 + ": "@ + rust_type(p.0)
}

/// A declaration inside `extern "C"` for a C prototype.
pub open spec fn function_code(f: FunctionModel) -> Seq<char> {
    let ret = rust_type(f.return_type);
    "    pub fn "@ + f.name + "("@ + join(f.params.map_values(|p: (Seq<char>, Seq<char>)| param_code(p)), ", "@)
        + ")"@ + (if ret == "()"@ { seq![] } else { " -> "@ + ret }) + ";\n"@
}

pub open spec fn enums_code(es: Seq<EnumModel>, allow: Seq<Seq<char>>) -> Seq<char>
    decreases es.len(),
{
    if es.len() == 0 {
        seq![]
    } else {
        enums_code(es.drop_last(), allow) + if includes(es.last().name, allow) {
            enum_code(es.last()) + "\n"@
        } else {
            seq![]
        }
    }
}

pub open spec fn structs_code(ds: Seq<StructModel>, allow: Seq<Seq<char>>, debug: bool, default: bool) -> Seq<char>
    decreases ds.len(),
{
    if ds.len() == 0 {
        seq![]
    } else {
        structs_code(ds.drop_last(), allow, debug, default) + if includes(ds.last().name, allow) {
            struct_code(ds.last(), debug, default) + "\n"@
        } else {
            seq![]
        }
    }
}

/// A typedef that only names a struct (or enum) read from the same header.
pub open spec fn is_struct_alias(t: TypedefModel, h: HeaderModel) -> bool {
    starts_with(t.target, "struct "@) && exists|k: int|
        0 <= k < h.structs.len() && "struct "@ + h.structs[k].name == t.target
}

pub open spec fn is_enum_alias(t: TypedefModel, h: HeaderModel) -> bool {
    starts_with(t.target, "enum "@) && exists|k: int|
        0 <= k < h.enums.len() && "enum "@ + h.enums[k].name == t.target
}

pub open spec fn typedefs_code(ts: Seq<TypedefModel>, h: HeaderModel, allow: Seq<Seq<char>>) -> Seq<char>
    decreases ts.len(),
{
    if ts.len() == 0 {
        seq![]
    } else {
        let t = ts.last();
        typedefs_code(ts.drop_last(), h, allow) + if includes(t.name, allow) && !is_struct_alias(t, h)
            && !is_enum_alias(t, h) {
            typedef_code(t) + "\n"@
        } else {
            seq![]
        }
    }
}

pub open spec fn functions_code(fs: Seq<FunctionModel>, allow: Seq<Seq<char>>) -> Seq<char>
    decreases fs.len(),
{
    if fs.len() == 0 {
        seq![]
    } else {
        functions_code(fs.drop_last(), allow) + if includes(fs.last().name, allow) {
            function_code(fs.last())
        } else {
            seq![]
        }
    }
}

/// The functions that the allowlist lets through, in order.
pub open spec fn included_functions(fs: Seq<FunctionModel>, allow: Seq<Seq<char>>) -> Seq<FunctionModel>
    decreases fs.len(),
{
    if fs.len() == 0 {
        seq![]
    } else {
        let init = included_functions(fs.drop_last(), allow);
        if includes(fs.last().name, allow) {
            init.push(fs.last())
        } else {
            init
        }
    }
}

/// A warning for each function left out by the allowlist, in order.
pub open spec fn skipped_functions(fs: Seq<FunctionModel>, allow: Seq<Seq<char>>) -> Seq<Seq<char>>
    decreases fs.len(),
{
    if fs.len() == 0 {
        seq![]
    } else {
        let init = skipped_functions(fs.drop_last(), allow);
        if includes(fs.last().name, allow) {
            init
        } else {
            init.push("Skipped function: "@ + fs.last().name)
        }
    }
}

/// The declarations part of the bindings: enums, structs, typedefs, then the
/// `extern "C"` block.
pub open spec fn declarations_code(
    h: HeaderModel,
    allow_types: Seq<Seq<char>>,
    allow_functions: Seq<Seq<char>>,
    debug: bool,
    default: bool,
) -> Seq<char> {
    enums_code(h.enums, allow_types) + structs_code(h.structs, allow_types, debug, default)
        + typedefs_code(h.typedefs, h, allow_types)
        + "#[allow(non_camel_case_types, non_snake_case, dead_code)]\n"@ + "extern \"C\" {\n"@
        + functions_code(h.functions, allow_functions) + "}\n"@
}

/// `s` without its control characters (line feeds, carriage returns, NUL,
/// tabs, escapes and the rest of category `Cc`).
pub open spec fn sanitize_comment(s: Seq<char>) -> Seq<char> {
    s.filter(|c: char| !is_control(c))
}

/// The whole bindings file for a header whose path prints as `display`.
pub open spec fn bindings_code(
    display: Seq<char>,
    h: HeaderModel,
    allow_types: Seq<Seq<char>>,
    allow_functions: Seq<Seq<char>>,
    debug: bool,
    default: bool,
) -> Seq<char> {
    "// Auto-generated bindings by equilibrium-ffi\n"@ + "//\n"@ + "// Source: "@ + sanitize_comment(
        display,
    ) + "\n"@ + "\n"@ + "use std::os::raw::*;\n"@ + "\n"@ + declarations_code(
        h,
        allow_types,
        allow_functions,
        debug,
        default,
    )
}

/// Whether `name` passes the allowlist.
pub fn should_include(name: &str, allowlist: &Vec<String>) -> (r: bool)
    ensures
        r == includes(name@, string_views(allowlist@)),
{
    let cs = chars_of(name);
    allowlist.len() == 0 || list_contains(allowlist, cs.as_slice())
}

fn push_rust_type(out: &mut String, c_type: &String)
    ensures
        final(out)@ == old(out)@ + rust_type(c_type@),
{
    let cs = chars_of(c_type.as_str());
    let r = rust_type_of(cs.as_slice());
    push_chars(out, r.as_slice());
}

/// The `enum` item for a C enum.
pub fn generate_enum(enum_def: &EnumDef) -> (r: String)
    ensures
        r@ == enum_code(enum_def@),
{
    let mut code = string_from("#[repr(C)]\n");
    push_str(&mut code, "#[derive(Debug, Copy, Clone, PartialEq, Eq)]\n");
    push_str(&mut code, "pub enum ");
    push_str(&mut code, enum_def.name.as_str());
    push_str(&mut code, " {\n");
    let ghost head = code@;
    let vs = &enum_def.variants;
    for i in 0..vs.len()
        invariant
            code@ == head + variants_code(enum_def@.variants.take(i as int)),
            vs == &enum_def.variants,
    {
        let ghost before = code@;
        push_str(&mut code, "    ");
        push_str(&mut code, vs[i].0.as_str());
        match &vs[i].1 {
            Some(value) => {
                push_str(&mut code, " = ");
                push_str(&mut code, value.as_str());
                push_str(&mut code, ",\n");
            },
            None => {
                push_str(&mut code, ",\n");
            },
        }
        proof {
            let all = enum_def@.variants;
            assert(all.take(i + 1).drop_last() =~= all.take(i as int));
            assert(all.take(i + 1).last() == all[i as int]);
            assert(code@ =~= before + variant_code(all[i as int]));
        }
    }
    assert(enum_def@.variants.take(vs@.len() as int) =~= enum_def@.variants);
    push_str(&mut code, "}\n");
    code
}

/// The `struct` item for a C struct.
pub fn generate_struct(struct_def: &StructDef, options: &BindingOptions) -> (r: String)
    ensures
        r@ == struct_code(struct_def@, options.derive_debug, options.derive_default),
{
    let mut derives: Vec<Vec<char>> = Vec::new();
    derives.push(chars_of("Copy"));
    derives.push(chars_of("Clone"));
    if options.derive_debug {
        derives.push(chars_of("Debug"));
    }
    if options.derive_default {
        derives.push(chars_of("Default"));
    }
    assert(views(derives@) =~= struct_derives(options.derive_debug, options.derive_default));
    let joined = join_chars(derives.as_slice(), ", ");
    let mut code = string_from("#[derive(");
    push_chars(&mut code, joined.as_slice());
    push_str(&mut code, ")]\n");
    push_str(&mut code, "#[repr(C)]\n");
    push_str(&mut code, "pub struct ");
    push_str(&mut code, struct_def.name.as_str());
    push_str(&mut code, " {\n");
    let ghost head = code@;
    let fs = &struct_def.fields;
    for i in 0..fs.len()
        invariant
            code@ == head + fields_code(struct_def@.fields.take(i as int)),
            fs == &struct_def.fields,
    {
        let ghost before = code@;
        push_str(&mut code, "    pub ");
        push_str(&mut code, fs[i].1.as_str());
        push_str(&mut code, ": ");
        push_rust_type(&mut code, &fs[i].0);
        push_str(&mut code, ",\n");
        proof {
            let all = struct_def@.fields;
            assert(all.take(i + 1).drop_last() =~= all.take(i as int));
            assert(all.take(i + 1).last() == all[i as int]);
            assert(code@ =~= before + field_code(all[i as int]));
        }
    }
    assert(struct_def@.fields.take(fs@.len() as int) =~= struct_def@.fields);
    push_str(&mut code, "}\n");
    code
}

/// The `type` alias for a C typedef.
pub fn generate_typedef(typedef: &TypedefDef) -> (r: String)
    ensures
        r@ == typedef_code(typedef@),
{
    let mut code = string_from("pub type ");
    push_str(&mut code, typedef.name.as_str());
    push_str(&mut code, " = ");
    push_rust_type(&mut code, &typedef.target);
    push_str(&mut code, ";\n");
    code
}

/// The declaration of a C prototype inside `extern "C"`.
pub fn generate_function(func: &FunctionDef) -> (r: String)
    ensures
        r@ == function_code(func@),
{
    let mut params: Vec<Vec<char>> = Vec::new();
    let ps = &func.params;
    for i in 0..ps.len()
        invariant
            ps == &func.params,
            views(params@) == func@.params.take(i as int).map_values(
                |p: (Seq<char>, Seq<char>)| param_code(p),
            ),
    {
        let mut p = chars_of(ps[i].1.as_str());
        let sep = chars_of(": ");
        p.extend_from_slice(sep.as_slice());
        let tc = chars_of(ps[i].0.as_str());
        let t = rust_type_of(tc.as_slice());
        p.extend_from_slice(t.as_slice());
        let ghost pv = p@;
        let ghost old_views = views(params@);
        params.push(p);
        proof {
            let all = func@.params;
            assert(all[i as int] == (ps@[i as int].0@, ps@[i as int].1@));
            assert(pv == param_code(all[i as int]));
            assert(views(params@) =~= old_views.push(pv));
            assert(all.take(i + 1).map_values(|p: (Seq<char>, Seq<char>)| param_code(p))
                =~= all.take(i as int).map_values(|p: (Seq<char>, Seq<char>)| param_code(p)).push(
                param_code(all[i as int]),
            ));
        }
    }
    assert(func@.params.take(ps@.len() as int) =~= func@.params);
    let joined = join_chars(params.as_slice(), ", ");
    let rc = chars_of(func.return_type.as_str());
    let ret = rust_type_of(rc.as_slice());
    let mut code = string_from("    pub fn ");
    push_str(&mut code, func.name.as_str());
    push_str(&mut code, "(");
    push_chars(&mut code, joined.as_slice());
    push_str(&mut code, ")");
    if !crate::text::eq_str(ret.as_slice(), "()") {
        push_str(&mut code, " -> ");
        push_chars(&mut code, ret.as_slice());
    }
    push_str(&mut code, ";\n");
    code
}

fn is_struct_alias_exec(t: &TypedefDef, h: &ParsedHeader) -> (r: bool)
    ensures
        r == is_struct_alias(t@, h@),
{
    let target = chars_of(t.target.as_str());
    if !starts_with_str(target.as_slice(), "struct ") {
        return false;
    }
    let mut k: usize = 0;
    while k < h.structs.len()
        invariant
            k <= h.structs@.len(),
            target@ == t.target@,
            starts_with(t@.target, "struct "@),
            forall|m: int| 0 <= m < k ==> "struct "@ + #[trigger] h@.structs[m].name != t@.target,
            h@.structs.len() == h.structs@.len(),
        decreases h.structs.len() - k,
    {
        let mut candidate = chars_of("struct ");
        let nm = chars_of(h.structs[k].name.as_str());
        candidate.extend_from_slice(nm.as_slice());
        assert(h@.structs[k as int].name == h.structs@[k as int].name@);
        assert(candidate@ == "struct "@ + h@.structs[k as int].name);
        if crate::text::eq_str(candidate.as_slice(), t.target.as_str()) {
            assert(0 <= k < h@.structs.len());
            assert("struct "@ + h@.structs[k as int].name == t@.target);
            return true;
        }
        k = k + 1;
    }
    false
}

fn is_enum_alias_exec(t: &TypedefDef, h: &ParsedHeader) -> (r: bool)
    ensures
        r == is_enum_alias(t@, h@),
{
    let target = chars_of(t.target.as_str());
    if !starts_with_str(target.as_slice(), "enum ") {
        return false;
    }
    let mut k: usize = 0;
    while k < h.enums.len()
        invariant
            k <= h.enums@.len(),
            target@ == t.target@,
            starts_with(t@.target, "enum "@),
            forall|m: int| 0 <= m < k ==> "enum "@ + #[trigger] h@.enums[m].name != t@.target,
            h@.enums.len() == h.enums@.len(),
        decreases h.enums.len() - k,
    {
        let mut candidate = chars_of("enum ");
        let nm = chars_of(h.enums[k].name.as_str());
        candidate.extend_from_slice(nm.as_slice());
        assert(h@.enums[k as int].name == h.enums@[k as int].name@);
        assert(candidate@ == "enum "@ + h@.enums[k as int].name);
        if crate::text::eq_str(candidate.as_slice(), t.target.as_str()) {
            assert(0 <= k < h@.enums.len());
            assert("enum "@ + h@.enums[k as int].name == t@.target);
            return true;
        }
        k = k + 1;
    }
    false
}

fn push_enums(parsed: &ParsedHeader, options: &BindingOptions, code: &mut String)
    ensures
        final(code)@ == old(code)@ + enums_code(parsed@.enums, string_views(options.allowlist_types@)),
{
    let ghost h = parsed@;
    let ghost types = string_views(options.allowlist_types@);
    let ghost start = code@;
    for i in 0..parsed.enums.len()
        invariant
            h == parsed@,
            types == string_views(options.allowlist_types@),
            code@ == start + enums_code(h.enums.take(i as int), types),
    {
        if should_include(parsed.enums[i].name.as_str(), &options.allowlist_types) {
            let e = generate_enum(&parsed.enums[i]);
            push_str(code, e.as_str());
            push_str(code, "\n");
        }
        proof {
            assert(h.enums.take(i + 1).drop_last() =~= h.enums.take(i as int));
            assert(h.enums.take(i + 1).last() == h.enums[i as int]);
        }
    }
    assert(h.enums.take(h.enums.len() as int) =~= h.enums);
}

fn push_structs(parsed: &ParsedHeader, options: &BindingOptions, code: &mut String)
    ensures
        final(code)@ == old(code)@ + structs_code(
            parsed@.structs,
            string_views(options.allowlist_types@),
            options.derive_debug,
            options.derive_default,
        ),
{
    let ghost h = parsed@;
    let ghost types = string_views(options.allowlist_types@);
    let ghost start = code@;
    for i in 0..parsed.structs.len()
        invariant
            h == parsed@,
            types == string_views(options.allowlist_types@),
            code@ == start + structs_code(
                h.structs.take(i as int),
                types,
                options.derive_debug,
                options.derive_default,
            ),
    {
        if should_include(parsed.structs[i].name.as_str(), &options.allowlist_types) {
            let d = generate_struct(&parsed.structs[i], options);
            push_str(code, d.as_str());
            push_str(code, "\n");
        }
        proof {
            assert(h.structs.take(i + 1).drop_last() =~= h.structs.take(i as int));
            assert(h.structs.take(i + 1).last() == h.structs[i as int]);
        }
    }
    assert(h.structs.take(h.structs.len() as int) =~= h.structs);
}

fn push_typedefs(parsed: &ParsedHeader, options: &BindingOptions, code: &mut String)
    ensures
        final(code)@ == old(code)@ + typedefs_code(
            parsed@.typedefs,
            parsed@,
            string_views(options.allowlist_types@),
        ),
{
    let ghost h = parsed@;
    let ghost types = string_views(options.allowlist_types@);
    let ghost start = code@;
    for i in 0..parsed.typedefs.len()
        invariant
            h == parsed@,
            types == string_views(options.allowlist_types@),
            code@ == start + typedefs_code(h.typedefs.take(i as int), h, types),
    {
        let t = &parsed.typedefs[i];
        if should_include(t.name.as_str(), &options.allowlist_types) {
            let struct_alias = is_struct_alias_exec(t, parsed);
            let enum_alias = is_enum_alias_exec(t, parsed);
            if !struct_alias && !enum_alias {
                let d = generate_typedef(t);
                push_str(code, d.as_str());
                push_str(code, "\n");
            }
        }
        proof {
            assert(h.typedefs.take(i + 1).drop_last() =~= h.typedefs.take(i as int));
            assert(h.typedefs.take(i + 1).last() == h.typedefs[i as int]);
        }
    }
    assert(h.typedefs.take(h.typedefs.len() as int) =~= h.typedefs);
}

fn push_functions(
    parsed: &ParsedHeader,
    options: &BindingOptions,
    code: &mut String,
    warnings: &mut Vec<String>,
)
    ensures
        final(code)@ == old(code)@ + functions_code(
            parsed@.functions,
            string_views(options.allowlist_functions@),
        ),
        string_views(final(warnings)@) == string_views(old(warnings)@) + skipped_functions(
            parsed@.functions,
            string_views(options.allowlist_functions@),
        ),
{
    let ghost h = parsed@;
    let ghost funcs = string_views(options.allowlist_functions@);
    let ghost start = code@;
    let ghost wstart = string_views(warnings@);
    for i in 0..parsed.functions.len()
        invariant
            h == parsed@,
            funcs == string_views(options.allowlist_functions@),
            code@ == start + functions_code(h.functions.take(i as int), funcs),
            string_views(warnings@) == wstart + skipped_functions(h.functions.take(i as int), funcs),
    {
        let f = &parsed.functions[i];
        let ghost wbefore = warnings@;
        if should_include(f.name.as_str(), &options.allowlist_functions) {
            let d = generate_function(f);
            push_str(code, d.as_str());
        } else {
            let mut w = string_from("Skipped function: ");
            push_str(&mut w, f.name.as_str());
            warnings.push(w);
            assert(string_views(warnings@) =~= string_views(wbefore).push(w@));
        }
        proof {
            assert(h.functions.take(i + 1).drop_last() =~= h.functions.take(i as int));
            assert(h.functions.take(i + 1).last() == h.functions[i as int]);
        }
    }
    assert(h.functions.take(h.functions.len() as int) =~= h.functions);
}

/// Appends the declarations of `parsed` to `code`, and a warning to `warnings`
/// for each function the allowlist leaves out.
pub fn emit_bindings_from_parsed(
    parsed: &ParsedHeader,
    options: &BindingOptions,
    code: &mut String,
    warnings: &mut Vec<String>,
)
    ensures
        final(code)@ == old(code)@ + declarations_code(
            parsed@,
            string_views(options.allowlist_types@),
            string_views(options.allowlist_functions@),
            options.derive_debug,
            options.derive_default,
        ),
        string_views(final(warnings)@) == string_views(old(warnings)@) + skipped_functions(
            parsed@.functions,
            string_views(options.allowlist_functions@),
        ),
{
    let ghost start = code@;
    push_enums(parsed, options, code);
    push_structs(parsed, options, code);
    push_typedefs(parsed, options, code);
    push_str(code, "#[allow(non_camel_case_types, non_snake_case, dead_code)]\n");
    push_str(code, "extern \"C\" {\n");
    push_functions(parsed, options, code, warnings);
    push_str(code, "}\n");
    assert(code@ =~= start + declarations_code(
        parsed@,
        string_views(options.allowlist_types@),
        string_views(options.allowlist_functions@),
        options.derive_debug,
        options.derive_default,
    ));
}

/// The `Path::display` text of a path with its control characters removed,
/// so that it stays inside one `//` comment.
pub fn sanitize_path_for_comment(path: &std::path::Path) -> (r: String)
    ensures
        r@ == sanitize_comment(path_display_text(path)),
{
    let shown = display_string(path);
    let r = sanitize_text(shown.as_str());
    r
}

/// `text` with its control characters removed.
pub fn sanitize_text(text: &str) -> (r: String)
    ensures
        r@ == sanitize_comment(text@),
{
    let cs = chars_of(text);
    let mut out: Vec<char> = Vec::new();
    for i in 0..cs.len()
        invariant
            cs@ == text@,
            out@ == sanitize_comment(cs@.take(i as int)),
    {
        let c = cs[i];
        if !is_control_char(c) {
            out.push(c);
        }
        proof {
            let t = cs@.take(i + 1);
            assert(t.drop_last() =~= cs@.take(i as int));
            reveal_with_fuel(Seq::filter, 1);
        }
    }
    assert(cs@.take(cs@.len() as int) =~= cs@);
    crate::text::string_of(out.as_slice())
}

/// Bindings for the header text `content`, whose file prints as `display`.
pub fn bindings_for_display(display: &str, content: &str, options: &BindingOptions) -> (r: (String, Vec<String>))
    requires
        spec_parse_header(content@) is Some,
    ensures
        r.0@ == bindings_code(
            display@,
            spec_parse_header(content@).unwrap(),
            string_views(options.allowlist_types@),
            string_views(options.allowlist_functions@),
            options.derive_debug,
            options.derive_default,
        ),
        string_views(r.1@) == skipped_functions(
            spec_parse_header(content@).unwrap().functions,
            string_views(options.allowlist_functions@),
        ),
{
    let parsed = match try_parse_c_header(content) {
        Some(p) => p,
        None => {
            assert(false);
            return (String::new(), Vec::new());
        },
    };
    let mut warnings: Vec<String> = Vec::new();
    let mut code = string_from("// Auto-generated bindings by equilibrium-ffi\n");
    push_str(&mut code, "//\n");
    push_str(&mut code, "// Source: ");
    let clean = sanitize_text(display);
    push_str(&mut code, clean.as_str());
    push_str(&mut code, "\n");
    push_str(&mut code, "\n");
    push_str(&mut code, "use std::os::raw::*;\n");
    push_str(&mut code, "\n");
    assert(string_views(warnings@) =~= Seq::<Seq<char>>::empty());
    emit_bindings_from_parsed(&parsed, options, &mut code, &mut warnings);
    assert(string_views(warnings@) =~= skipped_functions(
        parsed@.functions,
        string_views(options.allowlist_functions@),
    ));
    (code, warnings)
}

/// Generates Rust bindings from the text of a C header; `header` names the
/// file in the generated comment and in the result.
pub fn generate_bindings_from_content(
    header: &std::path::Path,
    content: &str,
    options: &BindingOptions,
) -> (r: Result<GeneratedBinding, String>)
    requires
        spec_parse_header(content@) is Some,
    ensures
        r matches Ok(b) && b.code@ == bindings_code(
            path_display_text(header),
            spec_parse_header(content@).unwrap(),
            string_views(options.allowlist_types@),
            string_views(options.allowlist_functions@),
            options.derive_debug,
            options.derive_default,
        ),
        r matches Ok(b) && buf_path(&b.source_header) == header,
        r matches Ok(b) && string_views(b.warnings@) == skipped_functions(
            spec_parse_header(content@).unwrap().functions,
            string_views(options.allowlist_functions@),
        ),
{
    let shown = display_string(header);
    let (code, warnings) = bindings_for_display(shown.as_str(), content, options);
    Ok(GeneratedBinding { code, source_header: to_path_buf(header), warnings })
}

/// A text found in `a` is found in `a` followed by `b`, and `b` is found there too.
pub proof fn lemma_contains_concat(a: Seq<char>, b: Seq<char>, x: Seq<char>)
    ensures
        contains_seq(a, x) ==> contains_seq(a + b, x),
        contains_seq(a + b, b),
{
    if contains_seq(a, x) {
        let i = choose|i: int| occurs_at(a, x, i);
        assert((a + b).subrange(i, i + x.len()) =~= a.subrange(i, i + x.len()));
        assert(occurs_at(a + b, x, i));
    }
    assert((a + b).subrange(a.len() as int, (a.len() + b.len()) as int) =~= b);
    assert(occurs_at(a + b, b, a.len() as int));
}

proof fn lemma_allowed_declared(fs: Seq<FunctionModel>, allow: Seq<Seq<char>>)
    ensures
        forall|k: int| 0 <= k < fs.len() && includes(#[trigger] fs[k].name, allow)
            ==> contains_seq(functions_code(fs, allow), function_code(fs[k])),
    decreases fs.len(),
{
    if fs.len() > 0 {
        let init = fs.drop_last();
        lemma_allowed_declared(init, allow);
        let c0 = functions_code(init, allow);
        let last_code = if includes(fs.last().name, allow) { function_code(fs.last()) } else { seq![] };
        assert(functions_code(fs, allow) == c0 + last_code);
        assert forall|k: int| 0 <= k < fs.len() && includes(#[trigger] fs[k].name, allow)
            implies contains_seq(functions_code(fs, allow), function_code(fs[k])) by {
            lemma_contains_concat(c0, last_code, function_code(fs[k]));
            if k < fs.len() - 1 {
                assert(init[k] == fs[k]);
            }
        }
    }
}

proof fn lemma_excluded_reported(fs: Seq<FunctionModel>, allow: Seq<Seq<char>>)
    ensures
        forall|k: int| 0 <= k < fs.len() && !includes(#[trigger] fs[k].name, allow)
            ==> skipped_functions(fs, allow).contains("Skipped function: "@ + fs[k].name),
    decreases fs.len(),
{
    if fs.len() > 0 {
        let init = fs.drop_last();
        lemma_excluded_reported(init, allow);
        let s0 = skipped_functions(init, allow);
        let s = skipped_functions(fs, allow);
        assert forall|k: int| 0 <= k < fs.len() && !includes(#[trigger] fs[k].name, allow)
            implies s.contains("Skipped function: "@ + fs[k].name) by {
            let msg = "Skipped function: "@ + fs[k].name;
            if k < fs.len() - 1 {
                assert(init[k] == fs[k]);
                let m = choose|m: int| 0 <= m < s0.len() && s0[m] == msg;
                assert(s[m] == msg);
            } else {
                assert(s[s.len() - 1] == msg);
            }
        }
    }
}

proof fn lemma_reports_name_excluded(fs: Seq<FunctionModel>, allow: Seq<Seq<char>>)
    ensures
        forall|x: Seq<char>| #[trigger] skipped_functions(fs, allow).contains(x) ==> exists|k: int|
            #![trigger fs[k]]
            0 <= k < fs.len() && !includes(fs[k].name, allow) && x == "Skipped function: "@ + fs[k].name,
    decreases fs.len(),
{
    if fs.len() > 0 {
        let init = fs.drop_last();
        lemma_reports_name_excluded(init, allow);
        let s0 = skipped_functions(init, allow);
        let s = skipped_functions(fs, allow);
        let last = fs.len() - 1;
        assert forall|x: Seq<char>| #[trigger] s.contains(x) implies exists|k: int|
            #![trigger fs[k]]
            0 <= k < fs.len() && !includes(fs[k].name, allow) && x == "Skipped function: "@ + fs[k].name by {
            let j = choose|j: int| 0 <= j < s.len() && s[j] == x;
            if j < s0.len() {
                assert(s[j] == s0[j]);
                assert(s0.contains(x));
                let k = choose|k: int|
                    #![trigger init[k]]
                    0 <= k < init.len() && !includes(init[k].name, allow) && x == "Skipped function: "@ + init[k].name;
                assert(fs[k] == init[k]);
            } else {
                assert(!includes(fs[last].name, allow));
                assert(x == "Skipped function: "@ + fs[last].name);
            }
        }
    }
}

/// The allowlist decides which prototypes reach the `extern "C"` block: each
/// function it lets through has its declaration there, each one it leaves
/// out is reported, every report names a function left out, and an empty
/// allowlist leaves nothing out.
pub proof fn law_allowlist(fs: Seq<FunctionModel>, allow: Seq<Seq<char>>)
    ensures
        forall|k: int| 0 <= k < fs.len() && includes(#[trigger] fs[k].name, allow)
            ==> contains_seq(functions_code(fs, allow), function_code(fs[k])),
        forall|k: int| 0 <= k < fs.len() && !includes(#[trigger] fs[k].name, allow)
            ==> skipped_functions(fs, allow).contains("Skipped function: "@ + fs[k].name),
        forall|x: Seq<char>| #[trigger] skipped_functions(fs, allow).contains(x) ==> exists|k: int|
            #![trigger fs[k]]
            0 <= k < fs.len() && !includes(fs[k].name, allow) && x == "Skipped function: "@ + fs[k].name,
        allow.len() == 0 ==> skipped_functions(fs, allow).len() == 0,
{
    lemma_allowed_declared(fs, allow);
    lemma_excluded_reported(fs, allow);
    lemma_reports_name_excluded(fs, allow);
    if allow.len() == 0 && skipped_functions(fs, allow).len() > 0 {
        assert(skipped_functions(fs, allow).contains(skipped_functions(fs, allow)[0]));
    }
}

/// The `extern "C"` block is made of the declarations of the functions that
/// the allowlist lets through, in their order, and of nothing else: a
/// function that the allowlist leaves out is not among them.
pub proof fn law_extern_block_is_allowed_functions(fs: Seq<FunctionModel>, allow: Seq<Seq<char>>)
    ensures
        functions_code(fs, allow) == functions_code(included_functions(fs, allow), seq![]),
        forall|f: FunctionModel| #[trigger] included_functions(fs, allow).contains(f)
            ==> fs.contains(f) && includes(f.name, allow),
        forall|k: int| 0 <= k < fs.len() && !includes(#[trigger] fs[k].name, allow)
            ==> !included_functions(fs, allow).contains(fs[k]),
    decreases fs.len(),
{
    if fs.len() > 0 {
        let init = fs.drop_last();
        let last = fs.last();
        law_extern_block_is_allowed_functions(init, allow);
        let inc0 = included_functions(init, allow);
        if includes(last.name, allow) {
            let inc = inc0.push(last);
            assert(inc.drop_last() =~= inc0);
            assert(functions_code(inc, seq![]) == functions_code(inc0, seq![]) + function_code(last));
        }
        assert forall|f: FunctionModel| #[trigger] included_functions(fs, allow).contains(f)
            implies fs.contains(f) && includes(f.name, allow) by {
            if inc0.contains(f) {
                let j = choose|j: int| 0 <= j < init.len() && init[j] == f;
                assert(fs[j] == f);
            } else {
                assert(f == last);
                assert(fs[fs.len() - 1] == f);
            }
        }
    }
}

/// The path written in the first comment of generated bindings holds no
/// control character (so no line break and no NUL), and keeps every other
/// character of the path's text, so the comment stays on one line.
pub proof fn law_sanitized_comment_single_line(s: Seq<char>)
    ensures
        forall|k: int| 0 <= k < sanitize_comment(s).len() ==> !is_control(#[trigger] sanitize_comment(s)[k]),
        forall|k: int| 0 <= k < s.len() && !is_control(#[trigger] s[k]) ==> sanitize_comment(s).contains(s[k]),
{
    let pred = |c: char| !is_control(c);
    assert forall|k: int| 0 <= k < sanitize_comment(s).len() implies !is_control(#[trigger] sanitize_comment(s)[k]) by {
        s.lemma_filter_pred(pred, k);
    }
    assert forall|k: int| 0 <= k < s.len() && !is_control(#[trigger] s[k]) implies sanitize_comment(s).contains(s[k]) by {
        s.lemma_filter_contains(pred, k);
    }
}

/// A text found in `b` is found in `a + b + c`.
pub proof fn lemma_contains_within(a: Seq<char>, b: Seq<char>, c: Seq<char>, x: Seq<char>)
    requires
        contains_seq(b, x),
    ensures
        contains_seq(a + b + c, x),
{
    let i = choose|i: int| occurs_at(b, x, i);
    let j = a.len() + i;
    assert((a + b + c).subrange(j, j + x.len()) =~= b.subrange(i, i + x.len()));
    assert(occurs_at(a + b + c, x, j));
}

/// The bindings generated for a header declare, in their `extern "C"`
/// block, every function of the header that the allowlist lets through.
pub proof fn law_bindings_declare_allowed_functions(
    display: Seq<char>,
    h: HeaderModel,
    allow_types: Seq<Seq<char>>,
    allow_functions: Seq<Seq<char>>,
    debug: bool,
    default: bool,
    k: int,
)
    requires
        0 <= k < h.functions.len(),
        includes(h.functions[k].name, allow_functions),
    ensures
        contains_seq(
            bindings_code(display, h, allow_types, allow_functions, debug, default),
            function_code(h.functions[k]),
        ),
{
    law_allowlist(h.functions, allow_functions);
    let body = functions_code(h.functions, allow_functions);
    let before = "// Auto-generated bindings by equilibrium-ffi\n"@ + "//\n"@ + "// Source: "@ + sanitize_comment(
        display,
    ) + "\n"@ + "\n"@ + "use std::os::raw::*;\n"@ + "\n"@ + enums_code(h.enums, allow_types) + structs_code(
        h.structs,
        allow_types,
        debug,
        default,
    ) + typedefs_code(h.typedefs, h, allow_types) + "#[allow(non_camel_case_types, non_snake_case, dead_code)]\n"@
        + "extern \"C\" {\n"@;
    lemma_contains_within(before, body, "}\n"@, function_code(h.functions[k]));
    assert(bindings_code(display, h, allow_types, allow_functions, debug, default) =~= before + body + "}\n"@);
}

/// The head of a type with C layout: `#[repr(C)]` on the line right before
/// `pub struct <name> {`.
pub open spec fn repr_c_struct_head(name: Seq<char>) -> Seq<char> {
    "#[repr(C)]\n"@ + "pub struct "@ + name + " {\n"@
}

/// A text found in `b`, where `b` is found in `a`, is found in `a`.
pub proof fn lemma_contains_trans(a: Seq<char>, b: Seq<char>, x: Seq<char>)
    requires
        contains_seq(a, b),
        contains_seq(b, x),
    ensures
        contains_seq(a, x),
{
    let i = choose|i: int| occurs_at(a, b, i);
    let j = choose|j: int| occurs_at(b, x, j);
    assert(a.subrange(i + j, i + j + x.len()) =~= b.subrange(j, j + x.len()));
    assert(occurs_at(a, x, i + j));
}

proof fn lemma_contains_self(x: Seq<char>)
    ensures
        contains_seq(x, x),
{
    assert(x.subrange(0, x.len() as int) =~= x);
    assert(occurs_at(x, x, 0));
}

/// Every generated struct has C layout, and every generated enum too: the
/// struct's `pub struct` line comes right after `#[repr(C)]`, and the enum's
/// text begins with `#[repr(C)]` and declares `pub enum <name> {`.
pub proof fn law_generated_types_have_c_layout(d: StructModel, e: EnumModel, debug: bool, default: bool)
    ensures
        contains_seq(struct_code(d, debug, default), repr_c_struct_head(d.name)),
        starts_with(enum_code(e), "#[repr(C)]\n"@),
        contains_seq(enum_code(e), "pub enum "@ + e.name + " {\n"@),
{
    let head = repr_c_struct_head(d.name);
    let a = "#[derive("@ + join(struct_derives(debug, default), ", "@) + ")]\n"@;
    let tail = fields_code(d.fields) + "}\n"@;
    assert(struct_code(d, debug, default) =~= a + head + tail);
    lemma_contains_self(head);
    lemma_contains_within(a, head, tail, head);
    let r = "#[repr(C)]\n"@;
    let dl = "#[derive(Debug, Copy, Clone, PartialEq, Eq)]\n"@;
    let x = "pub enum "@ + e.name + " {\n"@;
    let etail = variants_code(e.variants) + "}\n"@;
    assert(enum_code(e) =~= r + (dl + x + etail));
    assert(enum_code(e).take(r.len() as int) =~= r);
    assert(enum_code(e) =~= (r + dl) + x + etail);
    lemma_contains_self(x);
    lemma_contains_within(r + dl, x, etail, x);
}

proof fn lemma_allowed_structs_generated(ds: Seq<StructModel>, allow: Seq<Seq<char>>, debug: bool, default: bool)
    ensures
        forall|k: int| 0 <= k < ds.len() && includes(#[trigger] ds[k].name, allow)
            ==> contains_seq(structs_code(ds, allow, debug, default), struct_code(ds[k], debug, default)),
    decreases ds.len(),
{
    if ds.len() > 0 {
        let init = ds.drop_last();
        lemma_allowed_structs_generated(init, allow, debug, default);
        let c0 = structs_code(init, allow, debug, default);
        let last = struct_code(ds.last(), debug, default);
        assert forall|k: int| 0 <= k < ds.len() && includes(#[trigger] ds[k].name, allow)
            implies contains_seq(structs_code(ds, allow, debug, default), struct_code(ds[k], debug, default)) by {
            if k < ds.len() - 1 {
                assert(init[k] == ds[k]);
                let e: Seq<char> = seq![];
                let tail = if includes(ds.last().name, allow) { last + "\n"@ } else { e };
                assert(structs_code(ds, allow, debug, default) =~= e + c0 + tail);
                lemma_contains_within(e, c0, tail, struct_code(ds[k], debug, default));
            } else {
                assert(structs_code(ds, allow, debug, default) =~= c0 + last + "\n"@);
                lemma_contains_self(last);
                lemma_contains_within(c0, last, "\n"@, last);
            }
        }
    }
}

/// The bindings generated for a header give every struct that the allowlist
/// lets through a C layout: the text holds `#[repr(C)]` right before
/// `pub struct <name> {`.
pub proof fn law_bindings_structs_have_c_layout(
    display: Seq<char>,
    h: HeaderModel,
    allow_types: Seq<Seq<char>>,
    allow_functions: Seq<Seq<char>>,
    debug: bool,
    default: bool,
    k: int,
)
    requires
        0 <= k < h.structs.len(),
        includes(h.structs[k].name, allow_types),
    ensures
        contains_seq(
            bindings_code(display, h, allow_types, allow_functions, debug, default),
            repr_c_struct_head(h.structs[k].name),
        ),
{
    lemma_allowed_structs_generated(h.structs, allow_types, debug, default);
    let body = structs_code(h.structs, allow_types, debug, default);
    let before = "// Auto-generated bindings by equilibrium-ffi\n"@ + "//\n"@ + "// Source: "@ + sanitize_comment(
        display,
    ) + "\n"@ + "\n"@ + "use std::os::raw::*;\n"@ + "\n"@ + enums_code(h.enums, allow_types);
    let after = typedefs_code(h.typedefs, h, allow_types) + "#[allow(non_camel_case_types, non_snake_case, dead_code)]\n"@
        + "extern \"C\" {\n"@ + functions_code(h.functions, allow_functions) + "}\n"@;
    assert(bindings_code(display, h, allow_types, allow_functions, debug, default) =~= before + body + after);
    let sc = struct_code(h.structs[k], debug, default);
    lemma_contains_within(before, body, after, sc);
    law_generated_types_have_c_layout(h.structs[k], EnumModel { name: seq![], variants: seq![] }, debug, default);
    lemma_contains_trans(before + body + after, sc, repr_c_struct_head(h.structs[k].name));
}

} // verus!
