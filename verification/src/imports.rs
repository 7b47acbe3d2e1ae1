//! Consumer-side import declarations, in each supported language, for the
//! C-ABI-safe prototypes of a C header.

use vstd::prelude::*;

use crate::bindings::{
    function_code, generate_function, lemma_contains_concat, lemma_contains_within, param_code,
};
use crate::c_header::{
    FunctionDef, FunctionModel, c_abi_safe, is_c_abi_safe_type, rust_type, rust_type_of,
    spec_parse_header, try_parse_c_header, lemma_rust_type_trim, law_c_type_to_rust_pointer_is_mut,
};
use crate::detector::Language;
use crate::paths::{
    buf_path, opt_view, path_file_name, path_file_name_text, path_file_stem, path_file_stem_text,
    path_parent, path_parent_text, to_path_buf,
};
use crate::text::{
    chars_of, contains_seq, eq_str, join, join_chars, list_contains, push_chars, push_str, string_from,
    string_views, trim, trim_chars, views, lemma_trim_frame, is_ws, starts_with,
};

verus! {

broadcast use vstd::string::group_string_axioms;

/// Options for import generation.
#[derive(Clone, Debug)]
pub struct ImportOptions {
    /// Functions to keep (if empty, keep all).
    pub allowlist_functions: Vec<String>,
}

impl Default for ImportOptions {
    fn default() -> (r: Self)
        ensures
            r.allowlist_functions@.len() == 0,
    {
        ImportOptions { allowlist_functions: Vec::new() }
    }
}

impl ImportOptions {
    /// Sets the functions to keep.
    pub fn allowlist_functions<const N: usize>(self, functions: [&str; N]) -> (r: Self)
        ensures
            string_views(r.allowlist_functions@) == functions@.map_values(|s: &str| s@),
    {
        let mut names: Vec<String> = Vec::new();
        for i in 0..N
            invariant
                N == functions@.len(),
                string_views(names@) == functions@.take(i as int).map_values(|s: &str| s@),
        {
            let ghost before = string_views(names@);
            let item: &str = functions[i];
            let s = string_from(item);
            assert(item == functions@[i as int]);
            names.push(s);
            assert(string_views(names@) =~= before.push(functions@[i as int]@));
            assert(functions@.take(i + 1).map_values(|s: &str| s@) =~= functions@.take(
                i as int,
            ).map_values(|s: &str| s@).push(functions@[i as int]@));
        }
        assert(functions@.take(N as int) =~= functions@);
        ImportOptions { allowlist_functions: names }
    }
}

/// Import declarations generated for one consumer language.
#[derive(Clone, Debug)]
pub struct GeneratedImport {
    pub code: String,
    pub language: Language,
    pub source_header: std::path::PathBuf,
    pub warnings: Vec<String>,
}

/// The parts of a header's path that the generated imports name.
#[derive(Clone, Debug)]
pub struct HeaderNames {
    /// The file name (`Path::file_name`), when it is valid Unicode.
    pub file_name: Option<String>,
    /// The file name without its extension (`Path::file_stem`).
    pub file_stem: Option<String>,
    /// The directory holding the file (`Path::parent`).
    pub parent: Option<String>,
}

pub open spec fn or_default(o: Option<String>, d: Seq<char>) -> Seq<char> {
    match o {
        Some(s) => s@,
        None => d,
    }
}

/// The included file name: the header's own, or `equilibrium.h`.
pub open spec fn include_name(n: HeaderNames) -> Seq<char> {
    or_default(n.file_name, "equilibrium.h"@)
}

/// The library name: the header's stem, or `equilibrium`.
pub open spec fn stem_name(n: HeaderNames) -> Seq<char> {
    or_default(n.file_stem, "equilibrium"@)
}

/// The include directory: the header's parent, or `.`.
pub open spec fn include_dir(n: HeaderNames) -> Seq<char> {
    or_default(n.parent, "."@)
}

/// `n` holds what the path's file name, file stem and parent read as.
pub open spec fn names_of_path(n: HeaderNames, path: &std::path::Path) -> bool {
    &&& opt_view(n.file_name) == path_file_name_text(path)
    &&& opt_view(n.file_stem) == path_file_stem_text(path)
    &&& opt_view(n.parent) == path_parent_text(path)
}

/// The names that the generated imports take from a header's path.
pub fn header_names(path: &std::path::Path) -> (r: HeaderNames)
    ensures
        names_of_path(r, path),
{
    HeaderNames {
        file_name: path_file_name(path),
        file_stem: path_file_stem(path),
        parent: path_parent(path),
    }
}

/// The library name of a header: its stem, or `equilibrium`.
pub fn header_stem(names: &HeaderNames) -> (r: String)
    ensures
        r@ == stem_name(*names),
{
    match &names.file_stem {
        Some(s) => s.clone(),
        None => string_from("equilibrium"),
    }
}

fn include_name_of(names: &HeaderNames) -> (r: String)
    ensures
        r@ == include_name(*names),
{
    match &names.file_name {
        Some(s) => s.clone(),
        None => string_from("equilibrium.h"),
    }
}

fn include_dir_of(names: &HeaderNames) -> (r: String)
    ensures
        r@ == include_dir(*names),
{
    match &names.parent {
        Some(s) => s.clone(),
        None => string_from("."),
    }
}

/// How a C type reads for the type tables below: 0 `void`, 1 `int`, 2 a C
/// string, 3 a pointer to `int`, 4 anything else.
pub open spec fn type_kind(c_type: Seq<char>) -> int {
    let t = trim(c_type);
    if t == "void"@ {
        0
    } else if t == "int"@ {
        1
    } else if t == "const char *"@ || t == "char *"@ || t == "char*"@ || t == "const char*"@ {
        2
    } else if t == "int *"@ || t == "int*"@ {
        3
    } else {
        4
    }
}

fn type_kind_of(c_type: &str) -> (r: u8)
    ensures
        r as int == type_kind(c_type@),
{
    let cs = chars_of(c_type);
    let t = trim_chars(cs.as_slice());
    let t = t.as_slice();
    if eq_str(t, "void") {
        0
    } else if eq_str(t, "int") {
        1
    } else if eq_str(t, "const char *") || eq_str(t, "char *") || eq_str(t, "char*") || eq_str(
        t,
        "const char*",
    ) {
        2
    } else if eq_str(t, "int *") || eq_str(t, "int*") {
        3
    } else {
        4
    }
}

/// The name of a C type in the consumer language (C and C++ keep the C
/// spelling; Rust uses its FFI names).
pub open spec fn import_type(language: Language, c_type: Seq<char>) -> Seq<char> {
    let k = type_kind(c_type);
    match language {
        Language::Rust => rust_type(c_type),
        Language::C | Language::Cpp | Language::Zig => c_type,
        Language::CSharp => if k == 0 { "void"@ } else if k == 1 { "int"@ } else { "IntPtr"@ },
        Language::D => if k == 0 {
            "void"@
        } else if k == 1 {
            "int"@
        } else if k == 2 {
            "const(char)*"@
        } else if k == 3 {
            "int*"@
        } else {
            "void*"@
        },
        Language::Nim => if k == 0 {
            "void"@
        } else if k == 1 {
            "cint"@
        } else if k == 2 {
            "cstring"@
        } else if k == 3 {
            "ptr cint"@
        } else {
            "pointer"@
        },
        Language::Odin => if k == 0 {
            "void"@
        } else if k == 1 {
            "c.int"@
        } else if k == 2 {
            "cstring"@
        } else if k == 3 {
            "^c.int"@
        } else {
            "rawptr"@
        },
        Language::Hare => if k == 0 {
            "void"@
        } else if k == 1 {
            "int"@
        } else if k == 2 {
            "*u8"@
        } else if k == 3 {
            "*int"@
        } else {
            "*opaque"@
        },
        Language::V => if k == 0 {
            "void"@
        } else if k == 1 {
            "int"@
        } else if k == 2 {
            "&char"@
        } else if k == 3 {
            "&int"@
        } else {
            "voidptr"@
        },
    }
}

/// A C `int` keeps its meaning in every consumer language: it is imported as
/// that language's C `int` (`cint` in Nim, `c.int` in Odin, `c_int` in Rust,
/// `int` in C#, D, Hare and V, and as written in C, C++ and Zig), and a
/// pointer to `int` is that language's pointer to the very same type.
pub proof fn law_c_int_imported_as_c_int(l: Language, c: Seq<char>, p: Seq<char>)
    requires
        trim(c) == "int"@,
        trim(p) == "int*"@ || trim(p) == "int *"@,
    ensures
        import_type(l, c) == match l {
            Language::Rust => "c_int"@,
            Language::C | Language::Cpp | Language::Zig => c,
            Language::Nim => "cint"@,
            Language::Odin => "c.int"@,
            _ => "int"@,
        },
        match l {
            Language::Nim => import_type(l, p) == "ptr "@ + import_type(l, c),
            Language::Odin => import_type(l, p) == "^"@ + import_type(l, c),
            Language::Hare => import_type(l, p) == "*"@ + import_type(l, c),
            Language::V => import_type(l, p) == "&"@ + import_type(l, c),
            Language::D => import_type(l, p) == import_type(l, c) + "*"@,
            Language::Rust => import_type(l, p) == "*mut "@ + import_type(l, c),
            Language::CSharp => import_type(l, p) == "IntPtr"@,
            _ => import_type(l, p) == p,
        },
{
    reveal_strlit("void");
    reveal_strlit("int");
    reveal_strlit("int*");
    reveal_strlit("int *");
    reveal_strlit("char*");
    reveal_strlit("char *");
    reveal_strlit("const char*");
    reveal_strlit("const char *");
    reveal_strlit("cint");
    reveal_strlit("ptr ");
    reveal_strlit("ptr cint");
    reveal_strlit("c.int");
    reveal_strlit("^");
    reveal_strlit("^c.int");
    reveal_strlit("*");
    reveal_strlit("*int");
    reveal_strlit("&");
    reveal_strlit("&int");
    reveal_strlit("int*");
    reveal_strlit("c_int");
    reveal_strlit("*mut ");
    reveal_strlit("const ");
    let tc = trim(c);
    let tp = trim(p);
    assert(tc =~= seq!['i', 'n', 't']);
    assert("void"@ =~= seq!['v', 'o', 'i', 'd']);
    assert(type_kind(c) == 1);
    if tp == "int*"@ {
        assert(tp =~= seq!['i', 'n', 't', '*']);
    } else {
        assert(tp =~= seq!['i', 'n', 't', ' ', '*']);
    }
    assert("char*"@ =~= seq!['c', 'h', 'a', 'r', '*']);
    assert(type_kind(p) == 3);
    assert("ptr cint"@ =~= "ptr "@ + "cint"@);
    assert("^c.int"@ =~= "^"@ + "c.int"@);
    assert("*int"@ =~= "*"@ + "int"@);
    assert("&int"@ =~= "&"@ + "int"@);
    assert("int*"@ =~= "int"@ + "*"@);
    if l == Language::Rust {
        let e: Seq<char> = seq![];
        let q = tp.drop_last();
        assert(tp =~= q + seq!['*']);
        if tp == "int*"@ {
            assert(q =~= e + tc + e);
            lemma_trim_frame(e, tc, e);
        } else {
            assert(q =~= e + tc + seq![' ']);
            lemma_trim_frame(e, tc, seq![' ']);
        }
        assert(trim(q) == tc);
        law_c_type_to_rust_pointer_is_mut(q);
        assert(tp =~= e + tp + e);
        lemma_trim_frame(e, tp, e);
        lemma_rust_type_trim(p, tp);
        lemma_rust_type_trim(q, c);
        crate::c_header::lemma_scalar_literals();
        assert(rust_type(c) == "c_int"@);
    }
}

/// `void` and C strings keep their meaning in every consumer language:
/// `void` is that language's empty type (`()` in Rust, `void` elsewhere,
/// as written in C, C++ and Zig), and a `char *` (with or without `const`)
/// is the language's C string type: `cstring` in Nim and Odin,
/// `const(char)*` in D, `*u8` in Hare, `&char` in V and a pointer handle
/// (`IntPtr`) in C#.
pub proof fn law_void_and_strings_imported(l: Language, v: Seq<char>, st: Seq<char>)
    requires
        trim(v) == "void"@,
        trim(st) == "const char *"@ || trim(st) == "char *"@ || trim(st) == "char*"@ || trim(st) == "const char*"@,
    ensures
        import_type(l, v) == match l {
            Language::Rust => "()"@,
            Language::C | Language::Cpp | Language::Zig => v,
            _ => "void"@,
        },
        l == Language::Nim || l == Language::Odin ==> import_type(l, st) == "cstring"@,
        l == Language::D ==> import_type(l, st) == "const(char)*"@,
        l == Language::Hare ==> import_type(l, st) == "*u8"@,
        l == Language::V ==> import_type(l, st) == "&char"@,
        l == Language::CSharp ==> import_type(l, st) == "IntPtr"@,
{
    reveal_strlit("void");
    reveal_strlit("int");
    reveal_strlit("char*");
    reveal_strlit("char *");
    reveal_strlit("const char*");
    reveal_strlit("const char *");
    assert("void"@ =~= seq!['v', 'o', 'i', 'd']);
    assert("int"@ =~= seq!['i', 'n', 't']);
    assert(type_kind(v) == 0);
    let t = trim(st);
    assert(t.len() >= 5);
    assert(t[0] == 'c');
    assert(type_kind(st) == 2);
    if l == Language::Rust {
        crate::c_header::lemma_scalar_literals();
        let e: Seq<char> = seq![];
        let tv = trim(v);
        assert(tv =~= e + tv + e);
        lemma_trim_frame(e, tv, e);
        lemma_rust_type_trim(v, tv);
        assert(rust_type(tv) == "()"@);
    }
}

/// The name of a C type in the consumer language.
pub fn import_type_name(language: Language, c_type: &str) -> (r: String)
    ensures
        r@ == import_type(language, c_type@),
{
    match language {
        Language::Rust => {
            let cs = chars_of(c_type);
            let t = rust_type_of(cs.as_slice());
            crate::text::string_of(t.as_slice())
        },
        Language::C | Language::Cpp | Language::Zig => string_from(c_type),
        _ => {
            let k = type_kind_of(c_type);
            let names: [&str; 5] = match language {
                Language::CSharp => ["void", "int", "IntPtr", "IntPtr", "IntPtr"],
                Language::D => ["void", "int", "const(char)*", "int*", "void*"],
                Language::Nim => ["void", "cint", "cstring", "ptr cint", "pointer"],
                Language::Odin => ["void", "c.int", "cstring", "^c.int", "rawptr"],
                Language::Hare => ["void", "int", "*u8", "*int", "*opaque"],
                _ => ["void", "int", "&char", "&int", "voidptr"],
            };
            string_from(names[k as usize])
        },
    }
}

/// One parameter in the consumer language's syntax.
pub open spec fn import_param(language: Language, p: (Seq<char>, Seq<char>)) -> Seq<char> {
    match language {
        Language::Rust => param_code(p),
        Language::C | Language::Cpp | Language::Zig => p.0 + seq![' '] + p.1,
        Language::CSharp | Language::D => import_type(language, p.0) + seq![' '] + p.1,
        Language::Nim | Language::Odin | Language::Hare => p.1 + ": "@ + import_type(language, p.0),
        Language::V => p.1 + seq![' '] + import_type(language, p.0),
    }
}

/// The parameter list of a function in the consumer language.
pub open spec fn import_params(language: Language, f: FunctionModel) -> Seq<char> {
    join(f.params.map_values(|p: (Seq<char>, Seq<char>)| import_param(language, p)), ", "@)
}

/// The argument names of a function, for a forwarding call.
pub open spec fn arg_names(f: FunctionModel) -> Seq<char> {
    join(f.params.map_values(|p: (Seq<char>, Seq<char>)| p.1), ", "@)
}

/// `suffix` unless `t` is `void`.
pub open spec fn unless_void(t: Seq<char>, suffix: Seq<char>) -> Seq<char> {
    if t != "void"@ {
        suffix
    } else {
        seq![]
    }
}

/// The import of one function in the consumer language.
pub open spec fn import_fn(language: Language, names: HeaderNames, f: FunctionModel) -> Seq<char> {
    let ret = import_type(language, f.return_type);
    let params = import_params(language, f);
    let forward = f.return_type + " eq_"@ + stem_name(names) + "_"@ + f.name + "("@ + params
        + ") {\n    "@ + (if trim(f.return_type) != "void"@ { "return "@ } else { seq![] })
        + f.name + "("@ + arg_names(f);
    match language {
        Language::Rust => function_code(f),
        Language::Zig => "pub const "@ + f.name + " = c."@ + f.name + ";\n"@,
        Language::C => forward + ");\n}\n\n"@,
        Language::Cpp => forward + ");\n}\n"@,
        Language::CSharp => "    [DllImport(\""@ + stem_name(names) + "\")]\n    public static extern "@
            + ret + " "@ + f.name + "("@ + params + ");\n"@,
        Language::D => "    "@ + ret + " "@ + f.name + "("@ + params + ");\n"@,
        Language::Nim => "proc "@ + f.name + "("@ + params + "): "@ + ret + " {.importc: \""@
            + f.name + "\", cdecl.}\n"@,
        Language::Odin => f.name + " :: proc("@ + params + ")"@ + unless_void(ret, " -> "@ + ret)
            + " ---\n"@,
        Language::Hare => "@symbol(\""@ + f.name + "\")\nfn "@ + f.name + "("@ + params + ")"@
            + unless_void(ret, " "@ + ret) + ";\n"@,
        Language::V => "fn C."@ + f.name + "("@ + params + ")"@ + unless_void(ret, " "@ + ret)
            + "\n"@,
    }
}

/// What the imports of a language begin with.
pub open spec fn import_prefix(language: Language, names: HeaderNames) -> Seq<char> {
    match language {
        Language::Rust => "use std::os::raw::*;\n\nextern \"C\" {\n"@,
        Language::Zig => "const c = @cImport({\n    @cInclude(\""@ + include_name(names)
            + "\");\n});\n\n"@,
        Language::C => "#include \""@ + include_name(names) + "\"\n\n"@,
        Language::Cpp => "#include \""@ + include_name(names) + "\"\n\nextern \"C\" {\n"@,
        Language::CSharp => "using System;\nusing System.Runtime.InteropServices;\n\npublic static class EquilibriumImports\n{\n"@,
        Language::D => "extern(C) {\n"@,
        Language::Nim => seq![],
        Language::Odin => "foreign import eq \""@ + stem_name(names) + "\"\n\n"@,
        Language::Hare => seq![],
        Language::V => "#flag -I "@ + include_dir(names) + "\n#include \""@ + include_name(names)
            + "\"\n\n"@,
    }
}

/// What the imports of a language end with.
pub open spec fn import_suffix(language: Language) -> Seq<char> {
    match language {
        Language::Rust | Language::Cpp | Language::CSharp | Language::D => "}\n"@,
        _ => seq![],
    }
}

/// Whether every type of a prototype can cross the C ABI.
pub open spec fn supports_import(f: FunctionModel) -> bool {
    c_abi_safe(f.return_type) && forall|k: int|
        0 <= k < f.params.len() ==> c_abi_safe(#[trigger] f.params[k].0)
}

/// Whether the allowlist lets a function through (an empty list lets all through).
pub open spec fn import_allowed(f: FunctionModel, allow: Seq<Seq<char>>) -> bool {
    allow.len() == 0 || allow.contains(f.name)
}

/// The functions that get imports: allowed and C-ABI safe, in order.
pub open spec fn imported_functions(fs: Seq<FunctionModel>, allow: Seq<Seq<char>>) -> Seq<FunctionModel>
    decreases fs.len(),
{
    if fs.len() == 0 {
        seq![]
    } else {
        let init = imported_functions(fs.drop_last(), allow);
        if import_allowed(fs.last(), allow) && supports_import(fs.last()) {
            init.push(fs.last())
        } else {
            init
        }
    }
}

/// The imports of the given functions, one after another.
pub open spec fn imports_body(language: Language, names: HeaderNames, fs: Seq<FunctionModel>) -> Seq<char>
    decreases fs.len(),
{
    if fs.len() == 0 {
        seq![]
    } else {
        imports_body(language, names, fs.drop_last()) + import_fn(language, names, fs.last())
    }
}

/// A warning for each allowed function whose signature cannot cross the C ABI.
pub open spec fn import_warnings(fs: Seq<FunctionModel>, allow: Seq<Seq<char>>) -> Seq<Seq<char>>
    decreases fs.len(),
{
    if fs.len() == 0 {
        seq![]
    } else {
        let init = import_warnings(fs.drop_last(), allow);
        if import_allowed(fs.last(), allow) && !supports_import(fs.last()) {
            init.push(
                "Skipped function "@ + fs.last().name
                    + " because its signature is not supported for generated imports"@,
            )
        } else {
            init
        }
    }
}

/// The whole import file for a language.
pub open spec fn import_code(language: Language, names: HeaderNames, fs: Seq<FunctionModel>) -> Seq<char> {
    import_prefix(language, names) + imports_body(language, names, fs) + import_suffix(language)
}

/// Whether every type of a prototype can cross the C ABI.
pub fn supports_import_exec(function: &FunctionDef) -> (r: bool)
    ensures
        r == supports_import(function@),
{
    if !is_c_abi_safe_type(function.return_type.as_str()) {
        return false;
    }
    let ps = &function.params;
    let mut k: usize = 0;
    while k < ps.len()
        invariant
            ps == &function.params,
            k <= ps@.len(),
            forall|m: int| 0 <= m < k ==> c_abi_safe(#[trigger] function@.params[m].0),
        decreases ps.len() - k,
    {
        assert(function@.params[k as int].0 == ps@[k as int].0@);
        if !is_c_abi_safe_type(ps[k].0.as_str()) {
            return false;
        }
        k = k + 1;
    }
    true
}

fn push_import_params(out: &mut String, language: Language, f: &FunctionDef)
    ensures
        final(out)@ == old(out)@ + import_params(language, f@),
{
    let mut parts: Vec<Vec<char>> = Vec::new();
    let ps = &f.params;
    for i in 0..ps.len()
        invariant
            ps == &f.params,
            views(parts@) == f@.params.take(i as int).map_values(
                |p: (Seq<char>, Seq<char>)| import_param(language, p),
            ),
    {
        let ghost pair = f@.params[i as int];
        assert(pair == (ps@[i as int].0@, ps@[i as int].1@));
        let mut piece: Vec<char> = Vec::new();
        let ty = import_type_name(language, ps[i].0.as_str());
        let tyc = chars_of(ty.as_str());
        let name = chars_of(ps[i].1.as_str());
        let raw = chars_of(ps[i].0.as_str());
        match language {
            Language::Rust | Language::Nim | Language::Odin | Language::Hare => {
                piece.extend_from_slice(name.as_slice());
                let sep = chars_of(": ");
                piece.extend_from_slice(sep.as_slice());
                piece.extend_from_slice(tyc.as_slice());
                assert(piece@ =~= import_param(language, pair));
            },
            Language::C | Language::Cpp | Language::Zig => {
                piece.extend_from_slice(raw.as_slice());
                piece.push(' ');
                piece.extend_from_slice(name.as_slice());
                assert(piece@ =~= import_param(language, pair));
            },
            Language::CSharp | Language::D => {
                piece.extend_from_slice(tyc.as_slice());
                piece.push(' ');
                piece.extend_from_slice(name.as_slice());
                assert(piece@ =~= import_param(language, pair));
            },
            Language::V => {
                piece.extend_from_slice(name.as_slice());
                piece.push(' ');
                piece.extend_from_slice(tyc.as_slice());
                assert(piece@ =~= import_param(language, pair));
            },
        }
        let ghost before = views(parts@);
        parts.push(piece);
        proof {
            assert(views(parts@) =~= before.push(import_param(language, pair)));
            assert(f@.params.take(i + 1).map_values(
                |p: (Seq<char>, Seq<char>)| import_param(language, p),
            ) =~= f@.params.take(i as int).map_values(
                |p: (Seq<char>, Seq<char>)| import_param(language, p),
            ).push(import_param(language, pair)));
        }
    }
    assert(f@.params.take(ps@.len() as int) =~= f@.params);
    let joined = join_chars(parts.as_slice(), ", ");
    push_chars(out, joined.as_slice());
}

fn push_arg_names(out: &mut String, f: &FunctionDef)
    ensures
        final(out)@ == old(out)@ + arg_names(f@),
{
    let mut parts: Vec<Vec<char>> = Vec::new();
    let ps = &f.params;
    for i in 0..ps.len()
        invariant
            ps == &f.params,
            views(parts@) == f@.params.take(i as int).map_values(|p: (Seq<char>, Seq<char>)| p.1),
    {
        let ghost pair = f@.params[i as int];
        let name = chars_of(ps[i].1.as_str());
        let ghost before = views(parts@);
        parts.push(name);
        proof {
            assert(views(parts@) =~= before.push(pair.1));
            assert(f@.params.take(i + 1).map_values(|p: (Seq<char>, Seq<char>)| p.1)
                =~= f@.params.take(i as int).map_values(|p: (Seq<char>, Seq<char>)| p.1).push(
                pair.1,
            ));
        }
    }
    assert(f@.params.take(ps@.len() as int) =~= f@.params);
    let joined = join_chars(parts.as_slice(), ", ");
    push_chars(out, joined.as_slice());
}

fn push_unless_void(out: &mut String, ret: &String, sep: &str)
    ensures
        final(out)@ == old(out)@ + unless_void(ret@, sep@ + ret@),
{
    let rc = chars_of(ret.as_str());
    if !eq_str(rc.as_slice(), "void") {
        push_str(out, sep);
        push_str(out, ret.as_str());
    }
}

fn push_forwarder(out: &mut String, language: Language, names: &HeaderNames, f: &FunctionDef)
    requires
        language == Language::C || language == Language::Cpp,
    ensures
        final(out)@ == old(out)@ + import_fn(language, *names, f@),
{
    let ghost start = out@;
    let stem = header_stem(names);
    push_str(out, f.return_type.as_str());
    push_str(out, " eq_");
    push_str(out, stem.as_str());
    push_str(out, "_");
    push_str(out, f.name.as_str());
    push_str(out, "(");
    push_import_params(out, language, f);
    push_str(out, ") {\n    ");
    let rc = chars_of(f.return_type.as_str());
    let rt = trim_chars(rc.as_slice());
    if !eq_str(rt.as_slice(), "void") {
        push_str(out, "return ");
    }
    push_str(out, f.name.as_str());
    push_str(out, "(");
    push_arg_names(out, f);
    match language {
        Language::C => push_str(out, ");\n}\n\n"),
        _ => push_str(out, ");\n}\n"),
    }
    assert(out@ =~= start + import_fn(language, *names, f@));
}

fn push_declaration(out: &mut String, language: Language, names: &HeaderNames, f: &FunctionDef)
    requires
        language == Language::CSharp || language == Language::D || language == Language::Nim,
    ensures
        final(out)@ == old(out)@ + import_fn(language, *names, f@),
{
    let ghost start = out@;
    let ret = import_type_name(language, f.return_type.as_str());
    match language {
        Language::CSharp => {
            let stem = header_stem(names);
            push_str(out, "    [DllImport(\"");
            push_str(out, stem.as_str());
            push_str(out, "\")]\n    public static extern ");
            push_str(out, ret.as_str());
            push_str(out, " ");
            push_str(out, f.name.as_str());
            push_str(out, "(");
            push_import_params(out, language, f);
            push_str(out, ");\n");
        },
        Language::D => {
            push_str(out, "    ");
            push_str(out, ret.as_str());
            push_str(out, " ");
            push_str(out, f.name.as_str());
            push_str(out, "(");
            push_import_params(out, language, f);
            push_str(out, ");\n");
        },
        _ => {
            push_str(out, "proc ");
            push_str(out, f.name.as_str());
            push_str(out, "(");
            push_import_params(out, language, f);
            push_str(out, "): ");
            push_str(out, ret.as_str());
            push_str(out, " {.importc: \"");
            push_str(out, f.name.as_str());
            push_str(out, "\", cdecl.}\n");
        },
    }
    assert(out@ =~= start + import_fn(language, *names, f@));
}

fn push_foreign(out: &mut String, language: Language, names: &HeaderNames, f: &FunctionDef)
    requires
        language == Language::Odin || language == Language::Hare || language == Language::V,
    ensures
        final(out)@ == old(out)@ + import_fn(language, *names, f@),
{
    let ghost start = out@;
    let ret = import_type_name(language, f.return_type.as_str());
    match language {
        Language::Odin => {
            push_str(out, f.name.as_str());
            push_str(out, " :: proc(");
            push_import_params(out, language, f);
            push_str(out, ")");
            push_unless_void(out, &ret, " -> ");
            push_str(out, " ---\n");
        },
        Language::Hare => {
            push_str(out, "@symbol(\"");
            push_str(out, f.name.as_str());
            push_str(out, "\")\nfn ");
            push_str(out, f.name.as_str());
            push_str(out, "(");
            push_import_params(out, language, f);
            push_str(out, ")");
            push_unless_void(out, &ret, " ");
            push_str(out, ";\n");
        },
        _ => {
            push_str(out, "fn C.");
            push_str(out, f.name.as_str());
            push_str(out, "(");
            push_import_params(out, language, f);
            push_str(out, ")");
            push_unless_void(out, &ret, " ");
            push_str(out, "\n");
        },
    }
    assert(out@ =~= start + import_fn(language, *names, f@));
}

/// Appends the import of one function in the consumer language.
pub fn push_import_fn(out: &mut String, language: Language, names: &HeaderNames, f: &FunctionDef)
    ensures
        final(out)@ == old(out)@ + import_fn(language, *names, f@),
{
    let ghost start = out@;
    match language {
        Language::Rust => {
            let code = generate_function(f);
            push_str(out, code.as_str());
            assert(out@ =~= start + import_fn(language, *names, f@));
        },
        Language::Zig => {
            push_str(out, "pub const ");
            push_str(out, f.name.as_str());
            push_str(out, " = c.");
            push_str(out, f.name.as_str());
            push_str(out, ";\n");
            assert(out@ =~= start + import_fn(language, *names, f@));
        },
        Language::C | Language::Cpp => push_forwarder(out, language, names, f),
        Language::CSharp | Language::D | Language::Nim => push_declaration(out, language, names, f),
        Language::Odin | Language::Hare | Language::V => push_foreign(out, language, names, f),
    }
}

fn push_import_prefix(out: &mut String, language: Language, names: &HeaderNames)
    ensures
        final(out)@ == old(out)@ + import_prefix(language, *names),
{
    let ghost start = out@;
    match language {
        Language::Rust => push_str(out, "use std::os::raw::*;\n\nextern \"C\" {\n"),
        Language::Zig => {
            let inc = include_name_of(names);
            push_str(out, "const c = @cImport({\n    @cInclude(\"");
            push_str(out, inc.as_str());
            push_str(out, "\");\n});\n\n");
        },
        Language::C => {
            let inc = include_name_of(names);
            push_str(out, "#include \"");
            push_str(out, inc.as_str());
            push_str(out, "\"\n\n");
        },
        Language::Cpp => {
            let inc = include_name_of(names);
            push_str(out, "#include \"");
            push_str(out, inc.as_str());
            push_str(out, "\"\n\nextern \"C\" {\n");
        },
        Language::CSharp => push_str(
            out,
            "using System;\nusing System.Runtime.InteropServices;\n\npublic static class EquilibriumImports\n{\n",
        ),
        Language::D => push_str(out, "extern(C) {\n"),
        Language::Nim => {},
        Language::Odin => {
            let stem = header_stem(names);
            push_str(out, "foreign import eq \"");
            push_str(out, stem.as_str());
            push_str(out, "\"\n\n");
        },
        Language::Hare => {},
        Language::V => {
            let dir = include_dir_of(names);
            let inc = include_name_of(names);
            push_str(out, "#flag -I ");
            push_str(out, dir.as_str());
            push_str(out, "\n#include \"");
            push_str(out, inc.as_str());
            push_str(out, "\"\n\n");
        },
    }
    assert(out@ =~= start + import_prefix(language, *names));
}

fn push_import_suffix(out: &mut String, language: Language)
    ensures
        final(out)@ == old(out)@ + import_suffix(language),
{
    let ghost start = out@;
    match language {
        Language::Rust | Language::Cpp | Language::CSharp | Language::D => push_str(out, "}\n"),
        _ => {},
    }
    assert(out@ =~= start + import_suffix(language));
}

/// The import file of `functions` for a consumer language.
pub fn render_imports(language: Language, names: &HeaderNames, functions: &Vec<FunctionDef>) -> (r: String)
    ensures
        r@ == import_code(language, *names, functions@.map_values(|f: FunctionDef| f@)),
{
    let ghost fs = functions@.map_values(|f: FunctionDef| f@);
    let mut code = String::new();
    push_import_prefix(&mut code, language, names);
    let ghost head = code@;
    for i in 0..functions.len()
        invariant
            fs == functions@.map_values(|f: FunctionDef| f@),
            code@ == head + imports_body(language, *names, fs.take(i as int)),
    {
        push_import_fn(&mut code, language, names, &functions[i]);
        proof {
            assert(fs.take(i + 1).drop_last() =~= fs.take(i as int));
            assert(fs.take(i + 1).last() == fs[i as int]);
        }
    }
    assert(fs.take(functions@.len() as int) =~= fs);
    push_import_suffix(&mut code, language);
    code
}

/// The import file and warnings for the header text `content`, whose path
/// gives `names`.
pub fn imports_for_names(
    names: &HeaderNames,
    content: &str,
    language: Language,
    options: &ImportOptions,
) -> (r: (String, Vec<String>))
    requires
        spec_parse_header(content@) is Some,
    ensures
        r.0@ == import_code(
            language,
            *names,
            imported_functions(
                spec_parse_header(content@).unwrap().functions,
                string_views(options.allowlist_functions@),
            ),
        ),
        string_views(r.1@) == import_warnings(
            spec_parse_header(content@).unwrap().functions,
            string_views(options.allowlist_functions@),
        ),
{
    let parsed = match try_parse_c_header(content) {
        Some(p) => p,
        None => {
            assert(false);
            return (String::new(), Vec::new());
        },
    };
    let ghost fs = parsed@.functions;
    let ghost allow = string_views(options.allowlist_functions@);
    let mut warnings: Vec<String> = Vec::new();
    let mut code = String::new();
    push_import_prefix(&mut code, language, names);
    let ghost head = code@;
    assert(string_views(warnings@) =~= Seq::<Seq<char>>::empty());
    for i in 0..parsed.functions.len()
        invariant
            fs == parsed@.functions,
            allow == string_views(options.allowlist_functions@),
            code@ == head + imports_body(language, *names, imported_functions(fs.take(i as int), allow)),
            string_views(warnings@) == import_warnings(fs.take(i as int), allow),
    {
        let f = &parsed.functions[i];
        let ghost wbefore = warnings@;
        let name = chars_of(f.name.as_str());
        let allowed = options.allowlist_functions.len() == 0 || list_contains(
            &options.allowlist_functions,
            name.as_slice(),
        );
        if allowed {
            if supports_import_exec(f) {
                push_import_fn(&mut code, language, names, f);
                proof {
                    let prev = imported_functions(fs.take(i as int), allow);
                    assert(prev.push(fs[i as int]).drop_last() =~= prev);
                }
            } else {
                let mut w = string_from("Skipped function ");
                push_str(&mut w, f.name.as_str());
                push_str(&mut w, " because its signature is not supported for generated imports");
                warnings.push(w);
                assert(string_views(warnings@) =~= string_views(wbefore).push(w@));
            }
        }
        proof {
            assert(fs.take(i + 1).drop_last() =~= fs.take(i as int));
            assert(fs.take(i + 1).last() == fs[i as int]);
        }
    }
    assert(fs.take(parsed.functions@.len() as int) =~= fs);
    push_import_suffix(&mut code, language);
    (code, warnings)
}

/// Generates import declarations in `language` for the C-ABI-safe prototypes
/// of the header text `content`; `header` is the header's path.
pub fn generate_imports_from_content(
    header: &std::path::Path,
    content: &str,
    language: Language,
    options: &ImportOptions,
) -> (r: Result<GeneratedImport, String>)
    requires
        spec_parse_header(content@) is Some,
    ensures
        r matches Ok(g) && buf_path(&g.source_header) == header,
        r matches Ok(g) && g.language == language && exists|names: HeaderNames|
            names_of_path(names, header) && g.code@ == import_code(
                language,
                names,
                imported_functions(
                    spec_parse_header(content@).unwrap().functions,
                    string_views(options.allowlist_functions@),
                ),
            ),
        r matches Ok(g) && string_views(g.warnings@) == import_warnings(
            spec_parse_header(content@).unwrap().functions,
            string_views(options.allowlist_functions@),
        ),
{
    let names = header_names(header);
    let (code, warnings) = imports_for_names(&names, content, language, options);
    Ok(GeneratedImport { code, language, source_header: to_path_buf(header), warnings })
}

/// Of the functions the allowlist lets through, each either gets an import or
/// is reported in a warning; every imported function is let through and can
/// cross the C ABI.
pub proof fn law_imports_partition_allowed(fs: Seq<FunctionModel>, allow: Seq<Seq<char>>)
    ensures
        forall|k: int| 0 <= k < fs.len() && import_allowed(#[trigger] fs[k], allow) && supports_import(fs[k])
            ==> imported_functions(fs, allow).contains(fs[k]),
        forall|k: int| 0 <= k < fs.len() && import_allowed(#[trigger] fs[k], allow) && !supports_import(fs[k])
            ==> import_warnings(fs, allow).contains(
                "Skipped function "@ + fs[k].name + " because its signature is not supported for generated imports"@,
            ),
        forall|j: int| 0 <= j < imported_functions(fs, allow).len() ==> {
            let g = #[trigger] imported_functions(fs, allow)[j];
            fs.contains(g) && import_allowed(g, allow) && supports_import(g)
        },
        imported_functions(fs, allow).len() + import_warnings(fs, allow).len() <= fs.len(),
    decreases fs.len(),
{
    if fs.len() > 0 {
        let init = fs.drop_last();
        law_imports_partition_allowed(init, allow);
        let i0 = imported_functions(init, allow);
        let w0 = import_warnings(init, allow);
        let im = imported_functions(fs, allow);
        let w = import_warnings(fs, allow);
        assert forall|k: int| 0 <= k < fs.len() && import_allowed(#[trigger] fs[k], allow) && supports_import(fs[k])
            implies im.contains(fs[k]) by {
            if k < fs.len() - 1 {
                assert(init[k] == fs[k]);
                let m = choose|m: int| 0 <= m < i0.len() && i0[m] == init[k];
                assert(im[m] == fs[k]);
            } else {
                assert(im[im.len() - 1] == fs[k]);
            }
        }
        assert forall|k: int| 0 <= k < fs.len() && import_allowed(#[trigger] fs[k], allow) && !supports_import(fs[k])
            implies w.contains(
                "Skipped function "@ + fs[k].name + " because its signature is not supported for generated imports"@,
            ) by {
            let msg = "Skipped function "@ + fs[k].name + " because its signature is not supported for generated imports"@;
            if k < fs.len() - 1 {
                assert(init[k] == fs[k]);
                let m = choose|m: int| 0 <= m < w0.len() && w0[m] == msg;
                assert(w[m] == msg);
            } else {
                assert(w[w.len() - 1] == msg);
            }
        }
        assert forall|j: int| 0 <= j < im.len() implies {
            let g = #[trigger] im[j];
            fs.contains(g) && import_allowed(g, allow) && supports_import(g)
        } by {
            if j < i0.len() {
                assert(im[j] == i0[j]);
                let m = choose|m: int| 0 <= m < init.len() && init[m] == i0[j];
                assert(fs[m] == init[m]);
            } else {
                assert(fs[fs.len() - 1] == im[j]);
            }
        }
    }
}

/// The imports of a list of functions hold the import of each of them.
pub proof fn lemma_imports_body_contains(language: Language, names: HeaderNames, fs: Seq<FunctionModel>, j: int)
    requires
        0 <= j < fs.len(),
    ensures
        contains_seq(imports_body(language, names, fs), import_fn(language, names, fs[j])),
    decreases fs.len(),
{
    let init = fs.drop_last();
    let x = import_fn(language, names, fs[j]);
    if j < fs.len() - 1 {
        lemma_imports_body_contains(language, names, init, j);
        assert(init[j] == fs[j]);
        lemma_contains_concat(imports_body(language, names, init), import_fn(language, names, fs.last()), x);
    } else {
        lemma_contains_concat(imports_body(language, names, init), x, x);
    }
}

/// The generated import file holds an import for every function of the
/// header that the allowlist lets through and whose signature can cross the
/// C ABI.
pub proof fn law_import_code_covers_allowed_functions(
    language: Language,
    names: HeaderNames,
    fs: Seq<FunctionModel>,
    allow: Seq<Seq<char>>,
    k: int,
)
    requires
        0 <= k < fs.len(),
        import_allowed(fs[k], allow),
        supports_import(fs[k]),
    ensures
        contains_seq(
            import_code(language, names, imported_functions(fs, allow)),
            import_fn(language, names, fs[k]),
        ),
{
    law_imports_partition_allowed(fs, allow);
    let im = imported_functions(fs, allow);
    assert(im.contains(fs[k]));
    let j = choose|j: int| 0 <= j < im.len() && im[j] == fs[k];
    lemma_imports_body_contains(language, names, im, j);
    lemma_contains_within(
        import_prefix(language, names),
        imports_body(language, names, im),
        import_suffix(language),
        import_fn(language, names, fs[k]),
    );
}

} // verus!
