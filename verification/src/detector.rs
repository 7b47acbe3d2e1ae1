//! Source languages: names, file extensions, compilers and the command line
//! that turns a source file into C-compatible output.

use vstd::prelude::*;

use crate::paths::{opt_view, path_extension, path_extension_text};
use crate::text::{
    ascii_lowercase, chars_of, ends_with, eq_str, lines, lines_of, push_str, string_from, string_of,
    to_ascii_lower, views, string_views,
};

verus! {

broadcast use vstd::string::group_string_axioms;

/// Languages whose sources can be compiled to C-compatible output.
#[derive(Clone, Copy, Debug, PartialEq, Eq, Structural)]
pub enum Language {
    /// V language (vlang.io)
    V,
    /// Zig language
    Zig,
    /// C (already native)
    C,
    /// C++
    Cpp,
    /// C#
    CSharp,
    /// Rust (for cbindgen)
    Rust,
    /// D language
    D,
    /// Nim language
    Nim,
    /// Odin language
    Odin,
    /// Hare language
    Hare,
}

/// A language together with the compiler found for it.
#[derive(Clone, Debug)]
pub struct LanguageInfo {
    pub language: Language,
    pub compiler: Option<String>,
    pub version: Option<String>,
}

/// Every language, in declaration order.
pub open spec fn all_languages() -> Seq<Language> {
    seq![Language::V, Language::Zig, Language::C, Language::Cpp, Language::CSharp, Language::Rust, Language::D, Language::Nim, Language::Odin, Language::Hare]
}

/// The short name used on command lines.
pub open spec fn spec_cli_name(l: Language) -> Seq<char> {
    match l {
        Language::V => "v"@,
        Language::Zig => "zig"@,
        Language::C => "c"@,
        Language::Cpp => "cpp"@,
        Language::CSharp => "csharp"@,
        Language::Rust => "rust"@,
        Language::D => "d"@,
        Language::Nim => "nim"@,
        Language::Odin => "odin"@,
        Language::Hare => "hare"@,
    }
}

/// The variant name, as `{:?}` prints it.
pub open spec fn spec_debug_name(l: Language) -> Seq<char> {
    match l {
        Language::V => "V"@,
        Language::Zig => "Zig"@,
        Language::C => "C"@,
        Language::Cpp => "Cpp"@,
        Language::CSharp => "CSharp"@,
        Language::Rust => "Rust"@,
        Language::D => "D"@,
        Language::Nim => "Nim"@,
        Language::Odin => "Odin"@,
        Language::Hare => "Hare"@,
    }
}

/// The compiler tried first.
pub open spec fn spec_default_compiler(l: Language) -> Seq<char> {
    match l {
        Language::V => "v"@,
        Language::Zig => "zig"@,
        Language::C => "clang"@,
        Language::Cpp => "clang++"@,
        Language::CSharp => "csc"@,
        Language::Rust => "rustc"@,
        Language::D => "ldc2"@,
        Language::Nim => "nim"@,
        Language::Odin => "odin"@,
        Language::Hare => "hare"@,
    }
}

/// The file extensions of a language, lowercase, without the dot.
pub open spec fn spec_extensions(l: Language) -> Seq<Seq<char>> {
    match l {
        Language::V => seq!["v"@],
        Language::Zig => seq!["zig"@],
        Language::C => seq!["c"@, "h"@],
        Language::Cpp => seq!["cpp"@, "cxx"@, "cc"@, "hpp"@, "hxx"@],
        Language::CSharp => seq!["cs"@],
        Language::Rust => seq!["rs"@],
        Language::D => seq!["d"@, "di"@],
        Language::Nim => seq!["nim"@, "nims"@],
        Language::Odin => seq!["odin"@],
        Language::Hare => seq!["ha"@],
    }
}

/// The compilers tried after the default one.
pub open spec fn spec_alternative_compilers(l: Language) -> Seq<Seq<char>> {
    match l {
        Language::D => seq!["dmd"@, "gdc"@],
        Language::C => seq!["gcc"@, "cc"@],
        Language::Cpp => seq!["g++"@, "c++"@],
        _ => seq![],
    }
}

/// The language a lowercase command-line name stands for.
pub open spec fn spec_cli_language(n: Seq<char>) -> Option<Language> {
    if n == "v"@ || n == "vlang"@ {
        Some(Language::V)
    } else if n == "zig"@ {
        Some(Language::Zig)
    } else if n == "c"@ {
        Some(Language::C)
    } else if n == "cpp"@ || n == "c++"@ || n == "cxx"@ {
        Some(Language::Cpp)
    } else if n == "csharp"@ || n == "c#"@ || n == "cs"@ || n == "dotnet"@ {
        Some(Language::CSharp)
    } else if n == "rust"@ || n == "rs"@ {
        Some(Language::Rust)
    } else if n == "d"@ {
        Some(Language::D)
    } else if n == "nim"@ {
        Some(Language::Nim)
    } else if n == "odin"@ {
        Some(Language::Odin)
    } else if n == "hare"@ {
        Some(Language::Hare)
    } else {
        None
    }
}

/// The first language (in `all_languages` order) one of whose extensions is `e`.
pub open spec fn extension_language(e: Seq<char>) -> Option<Language> {
    if e == "v"@ {
        Some(Language::V)
    } else if e == "zig"@ {
        Some(Language::Zig)
    } else if e == "c"@ || e == "h"@ {
        Some(Language::C)
    } else if e == "cpp"@ || e == "cxx"@ || e == "cc"@ || e == "hpp"@ || e == "hxx"@ {
        Some(Language::Cpp)
    } else if e == "cs"@ {
        Some(Language::CSharp)
    } else if e == "rs"@ {
        Some(Language::Rust)
    } else if e == "d"@ || e == "di"@ {
        Some(Language::D)
    } else if e == "nim"@ || e == "nims"@ {
        Some(Language::Nim)
    } else if e == "odin"@ {
        Some(Language::Odin)
    } else if e == "ha"@ {
        Some(Language::Hare)
    } else {
        None
    }
}

/// The compiler arguments that turn `input` into C-compatible output at `output`.
pub open spec fn spec_to_c_args(l: Language, input: Seq<char>, output: Seq<char>) -> Seq<Seq<char>> {
    match l {
        Language::V => seq!["-o"@, output, "-backend"@, "c"@, input],
        Language::Zig => seq!["build-obj"@, "-femit-bin="@ + output, input],
        Language::C => seq!["-E"@, "-o"@, output, input],
        Language::Cpp => seq!["-c"@, "-o"@, output, input],
        Language::CSharp => seq!["-target:library"@, "-out:"@ + output, input],
        Language::Rust => seq!["--crate-type=cdylib"@, "-o"@, output, input],
        Language::D => seq!["-c"@, "-of="@ + output, "-HC"@, input],
        Language::Nim => seq!["c"@, "--nimcache:."@, "-o:"@ + output, input],
        Language::Odin => seq!["build"@, input, "-out:"@ + output, "-build-mode:obj"@],
        Language::Hare => seq!["build"@, "-o"@, output, input],
    }
}

/// Every character of `s` is ASCII.
pub open spec fn is_ascii_text(s: Seq<char>) -> bool {
    forall|i: int| 0 <= i < s.len() ==> s[i] < '\u{80}'
}

/// The lowercase form that `str::to_lowercase` gives (Unicode case mapping).
pub uninterp spec fn unicode_lowercase(s: Seq<char>) -> Seq<char>;

/// `str::to_lowercase`: its result is named `unicode_lowercase`. Of the
/// Unicode case mapping only its ASCII part is stated: an ASCII text gets its
/// ASCII lowercase form.
#[verifier::external_body]
pub(crate) fn lowercase(s: &str) -> (r: String)
    ensures
        r@ == unicode_lowercase(s@),
        is_ascii_text(s@) ==> r@ == to_ascii_lower(s@),
{
    s.to_lowercase()
}

/// The language a file extension belongs to, compared case-insensitively.
pub open spec fn spec_language_for_extension(ext: Seq<char>) -> Option<Language> {
    extension_language(unicode_lowercase(ext))
}

fn concat(a: &str, b: &str) -> (r: String)
    ensures
        r@ == a@ + b@,
{
    let mut s = string_from(a);
    push_str(&mut s, b);
    s
}

impl Language {

    /// The short name used on command lines.
    pub fn cli_name(&self) -> (r: &'static str)
        ensures
            r@ == spec_cli_name(*self),
    {
        match self {
            Language::V => "v",
            Language::Zig => "zig",
            Language::C => "c",
            Language::Cpp => "cpp",
            Language::CSharp => "csharp",
            Language::Rust => "rust",
            Language::D => "d",
            Language::Nim => "nim",
            Language::Odin => "odin",
            Language::Hare => "hare",
        }
    }

    /// The variant name, as `{:?}` prints it.
    pub fn debug_name(&self) -> (r: &'static str)
        ensures
            r@ == spec_debug_name(*self),
    {
        match self {
            Language::V => "V",
            Language::Zig => "Zig",
            Language::C => "C",
            Language::Cpp => "Cpp",
            Language::CSharp => "CSharp",
            Language::Rust => "Rust",
            Language::D => "D",
            Language::Nim => "Nim",
            Language::Odin => "Odin",
            Language::Hare => "Hare",
        }
    }

    /// The typical compiler command for this language.
    pub fn default_compiler(&self) -> (r: &'static str)
        ensures
            r@ == spec_default_compiler(*self),
    {
        match self {
            Language::V => "v",
            Language::Zig => "zig",
            Language::C => "clang",
            Language::Cpp => "clang++",
            Language::CSharp => "csc",
            Language::Rust => "rustc",
            Language::D => "ldc2",
            Language::Nim => "nim",
            Language::Odin => "odin",
            Language::Hare => "hare",
        }
    }

    /// The file extensions of this language.
    pub fn extensions(&self) -> (r: &'static [&'static str])
        ensures
            r@.map_values(|s: &str| s@) == spec_extensions(*self),
    {
        let r: &'static [&'static str] = match self {
            Language::V => &["v"],
            Language::Zig => &["zig"],
            Language::C => &["c", "h"],
            Language::Cpp => &["cpp", "cxx", "cc", "hpp", "hxx"],
            Language::CSharp => &["cs"],
            Language::Rust => &["rs"],
            Language::D => &["d", "di"],
            Language::Nim => &["nim", "nims"],
            Language::Odin => &["odin"],
            Language::Hare => &["ha"],
        };
        assert(r@.map_values(|s: &str| s@) =~= spec_extensions(*self));
        r
    }

    /// Alternative compiler names to try.
    pub fn alternative_compilers(&self) -> (r: &'static [&'static str])
        ensures
            r@.map_values(|s: &str| s@) == spec_alternative_compilers(*self),
    {
        let r: &'static [&'static str] = match self {
            Language::D => &["dmd", "gdc"],
            Language::C => &["gcc", "cc"],
            Language::Cpp => &["g++", "c++"],
            _ => &[],
        };
        assert(r@.map_values(|s: &str| s@) =~= spec_alternative_compilers(*self));
        r
    }

    /// The language a command-line name stands for, compared ASCII case-insensitively.
    pub fn from_cli_name(name: &str) -> (r: Option<Self>)
        ensures
            r == spec_cli_language(to_ascii_lower(name@)),
    {
        let cs = chars_of(name);
        let n = ascii_lowercase(cs.as_slice());
        let n = n.as_slice();
        if eq_str(n, "v") || eq_str(n, "vlang") {
            Some(Language::V)
        } else if eq_str(n, "zig") {
            Some(Language::Zig)
        } else if eq_str(n, "c") {
            Some(Language::C)
        } else if eq_str(n, "cpp") || eq_str(n, "c++") || eq_str(n, "cxx") {
            Some(Language::Cpp)
        } else if eq_str(n, "csharp") || eq_str(n, "c#") || eq_str(n, "cs") || eq_str(n, "dotnet") {
            Some(Language::CSharp)
        } else if eq_str(n, "rust") || eq_str(n, "rs") {
            Some(Language::Rust)
        } else if eq_str(n, "d") {
            Some(Language::D)
        } else if eq_str(n, "nim") {
            Some(Language::Nim)
        } else if eq_str(n, "odin") {
            Some(Language::Odin)
        } else if eq_str(n, "hare") {
            Some(Language::Hare)
        } else {
            None
        }
    }

    /// Every supported language.
    pub fn all() -> (r: &'static [Language])
        ensures
            r@ == all_languages(),
    {
        let r: &'static [Language] = &[Language::V, Language::Zig, Language::C, Language::Cpp, Language::CSharp, Language::Rust, Language::D, Language::Nim, Language::Odin, Language::Hare];
        assert(r@ =~= all_languages());
        r
    }

    /// The compiler arguments that turn `input` into C-compatible output at `output`.
    pub fn to_c_args(&self, input: &str, output: &str) -> (r: Vec<String>)
        ensures
            r@.map_values(|s: String| s@) == spec_to_c_args(*self, input@, output@),
    {
        let mut v: Vec<String> = Vec::new();
        match self {
            Language::V => {
                v.push(string_from("-o"));
                v.push(string_from(output));
                v.push(string_from("-backend"));
                v.push(string_from("c"));
                v.push(string_from(input));
            },
            Language::Zig => {
                v.push(string_from("build-obj"));
                v.push(concat("-femit-bin=", output));
                v.push(string_from(input));
            },
            Language::C => {
                v.push(string_from("-E"));
                v.push(string_from("-o"));
                v.push(string_from(output));
                v.push(string_from(input));
            },
            Language::Cpp => {
                v.push(string_from("-c"));
                v.push(string_from("-o"));
                v.push(string_from(output));
                v.push(string_from(input));
            },
            Language::CSharp => {
                v.push(string_from("-target:library"));
                v.push(concat("-out:", output));
                v.push(string_from(input));
            },
            Language::Rust => {
                v.push(string_from("--crate-type=cdylib"));
                v.push(string_from("-o"));
                v.push(string_from(output));
                v.push(string_from(input));
            },
            Language::D => {
                v.push(string_from("-c"));
                v.push(concat("-of=", output));
                v.push(string_from("-HC"));
                v.push(string_from(input));
            },
            Language::Nim => {
                v.push(string_from("c"));
                v.push(string_from("--nimcache:."));
                v.push(concat("-o:", output));
                v.push(string_from(input));
            },
            Language::Odin => {
                v.push(string_from("build"));
                v.push(string_from(input));
                v.push(concat("-out:", output));
                v.push(string_from("-build-mode:obj"));
            },
            Language::Hare => {
                v.push(string_from("build"));
                v.push(string_from("-o"));
                v.push(string_from(output));
                v.push(string_from(input));
            },
        }
        let r = v;
        assert(r@.map_values(|s: String| s@) =~= spec_to_c_args(*self, input@, output@));
        r
    }
}

/// The first language one of whose extensions is `e` (already lowercase).
pub fn extension_language_of(e: &[char]) -> (r: Option<Language>)
    ensures
        r == extension_language(e@),
{
    if eq_str(e, "v") {
        Some(Language::V)
    } else if eq_str(e, "zig") {
        Some(Language::Zig)
    } else if eq_str(e, "c") || eq_str(e, "h") {
        Some(Language::C)
    } else if eq_str(e, "cpp") || eq_str(e, "cxx") || eq_str(e, "cc") || eq_str(e, "hpp") || eq_str(e, "hxx") {
        Some(Language::Cpp)
    } else if eq_str(e, "cs") {
        Some(Language::CSharp)
    } else if eq_str(e, "rs") {
        Some(Language::Rust)
    } else if eq_str(e, "d") || eq_str(e, "di") {
        Some(Language::D)
    } else if eq_str(e, "nim") || eq_str(e, "nims") {
        Some(Language::Nim)
    } else if eq_str(e, "odin") {
        Some(Language::Odin)
    } else if eq_str(e, "ha") {
        Some(Language::Hare)
    } else {
        None
    }
}

/// The language of a file extension (without the dot), compared after
/// Unicode lowercasing.
pub fn language_for_extension(ext: &str) -> (r: Option<Language>)
    ensures
        r == spec_language_for_extension(ext@),
        is_ascii_text(ext@) ==> r == extension_language(to_ascii_lower(ext@)),
{
    let lowered = lowercase(ext);
    let cs = chars_of(lowered.as_str());
    extension_language_of(cs.as_slice())
}

/// Detects the language of a source file from its extension, compared
/// case-insensitively; none when the path has no extension.
pub fn detect_language(path: &std::path::Path) -> (r: Option<Language>)
    ensures
        r == match path_extension_text(path) {
            Some(e) => spec_language_for_extension(e),
            None => None,
        },
        r matches Some(l) ==> all_languages().contains(l),
{
    match path_extension(path) {
        Some(ext) => {
            let r = language_for_extension(ext.as_str());
            proof {
                if let Some(l) = r {
                    lemma_language_in_all(l);
                }
            }
            r
        },
        None => None,
    }
}

/// The compilers searched for a language, in order: the default one, then the alternatives.
pub open spec fn spec_compiler_candidates(l: Language) -> Seq<Seq<char>> {
    seq![spec_default_compiler(l)] + spec_alternative_compilers(l)
}

/// Where `which::which` finds a program of this name on `PATH`. Nothing is
/// stated of the answer: it depends on the environment and on the disk.
#[verifier::external_body]
pub(crate) fn which_path(name: &str) -> Option<std::path::PathBuf> {
    which::which(name).ok()
}

/// Whether a program of this name is found on `PATH`.
pub(crate) fn on_path(name: &str) -> bool {
    which_path(name).is_some()
}

/// The position of the first `true` in `found`, if any.
pub fn first_found(found: &[bool]) -> (r: Option<usize>)
    ensures
        r matches Some(k) ==> k < found@.len() && found@[k as int] && forall|j: int| 0 <= j < k ==> !found@[j],
        r is None ==> forall|j: int| 0 <= j < found@.len() ==> !found@[j],
{
    let mut k: usize = 0;
    while k < found.len()
        invariant
            k <= found@.len(),
            forall|j: int| 0 <= j < k ==> !found@[j],
        decreases found.len() - k,
    {
        if found[k] {
            return Some(k);
        }
        k = k + 1;
    }
    None
}

/// `r` is the first of `cands` that `found` marks, or none when it marks none.
pub open spec fn first_marked(cands: Seq<Seq<char>>, found: Seq<bool>, r: Option<Seq<char>>) -> bool {
    match r {
        Some(c) => exists|k: int|
            0 <= k < cands.len() && found[k] && cands[k] == c && forall|j: int| 0 <= j < k ==> !found[j],
        None => forall|k: int| 0 <= k < found.len() ==> !found[k],
    }
}

/// The names searched for a language's compiler, in order: the default
/// compiler, then each alternative.
pub fn compiler_candidates(language: Language) -> (r: Vec<String>)
    ensures
        string_views(r@) == spec_compiler_candidates(language),
{
    let ghost cands = spec_compiler_candidates(language);
    let mut names: Vec<String> = Vec::new();
    names.push(string_from(language.default_compiler()));
    let alts = language.alternative_compilers();
    for i in 0..alts.len()
        invariant
            alts@.map_values(|s: &str| s@) == spec_alternative_compilers(language),
            names@.len() == i + 1,
            forall|j: int| 0 <= j < names@.len() ==> #[trigger] names@[j]@ == cands[j],
            cands == spec_compiler_candidates(language),
    {
        assert(cands[i + 1] == alts@[i as int]@);
        names.push(string_from(alts[i]));
    }
    assert(string_views(names@) =~= cands);
    names
}

/// The compiler a search settles on, given for each name of
/// `compiler_candidates` (in that order) whether it was found: the first one
/// found, or none when none was.
pub fn compiler_from_probes(language: Language, found: &[bool]) -> (r: Option<String>)
    requires
        found@.len() == spec_compiler_candidates(language).len(),
    ensures
        first_marked(spec_compiler_candidates(language), found@, opt_view(r)),
{
    let names = compiler_candidates(language);
    let ghost cands = spec_compiler_candidates(language);
    match first_found(found) {
        Some(k) => {
            let r = Some(names[k].clone());
            assert(string_views(names@)[k as int] == names@[k as int]@);
            assert(first_marked(cands, found@, opt_view(r)));
            r
        },
        None => None,
    }
}

/// Whether each of `names` is found on `PATH`, probed one after the other in
/// their order. What each probe answers depends on the environment.
pub fn probe_names(names: &Vec<String>) -> (found: Vec<bool>)
    ensures
        found@.len() == names@.len(),
{
    let mut found: Vec<bool> = Vec::new();
    for i in 0..names.len()
        invariant
            found@.len() == i,
    {
        found.push(on_path(names[i].as_str()));
    }
    found
}

/// The first compiler of the language found on `PATH`: the names of
/// `compiler_candidates` are probed in order and `compiler_from_probes`
/// picks the first one found. Whether a name is found depends on the
/// environment, so what is stated is that the result is the first found
/// candidate for some outcome of the probes.
pub fn find_compiler_binary(language: Language) -> (r: Option<String>)
    ensures
        exists|found: Seq<bool>|
            found.len() == spec_compiler_candidates(language).len() && first_marked(
                spec_compiler_candidates(language),
                found,
                opt_view(r),
            ),
        r matches Some(c) ==> spec_compiler_candidates(language).contains(c@),
{
    let names = compiler_candidates(language);
    let found = probe_names(&names);
    let r = compiler_from_probes(language, found.as_slice());
    proof {
        if r is Some {
            let c = r->0;
            let k = choose|k: int|
                0 <= k < spec_compiler_candidates(language).len() && found@[k]
                    && spec_compiler_candidates(language)[k] == c@ && forall|j: int| 0 <= j < k ==> !found@[j];
            assert(spec_compiler_candidates(language)[k] == c@);
        }
    }
    r
}

/// The first line of a compiler's `--version` output, as `str::lines` gives it.
pub fn first_output_line(text: &str) -> (r: Option<String>)
    ensures
        r is None <==> lines(text@).len() == 0,
        r matches Some(l) ==> l@ == lines(text@)[0],
{
    let cs = chars_of(text);
    let ls = lines_of(cs.as_slice());
    if ls.len() == 0 {
        None
    } else {
        Some(string_of(ls[0].as_slice()))
    }
}

/// Directory names that a source scan does not enter.
pub open spec fn spec_skipped_directory(name: Seq<char>) -> bool {
    ||| name == "target"@
    ||| name == "node_modules"@
    ||| name == ".git"@
    ||| name == "build"@
    ||| name == "dist"@
    ||| name == "zig-cache"@
    ||| name == "nimcache"@
}

/// Whether a source scan leaves out a directory of this name.
pub fn is_skipped_directory(name: &str) -> (r: bool)
    ensures
        r == spec_skipped_directory(name@),
{
    let cs = chars_of(name);
    let n = cs.as_slice();
    eq_str(n, "target") || eq_str(n, "node_modules") || eq_str(n, ".git") || eq_str(n, "build")
        || eq_str(n, "dist") || eq_str(n, "zig-cache") || eq_str(n, "nimcache")
}

/// Every extension listed for a language is detected as that language.
pub proof fn law_listed_extension_detected(l: Language, k: int)
    requires
        0 <= k < spec_extensions(l).len(),
    ensures
        extension_language(spec_extensions(l)[k]) == Some(l),
{
    reveal_strlit("v");
    reveal_strlit("zig");
    reveal_strlit("c");
    reveal_strlit("h");
    reveal_strlit("cpp");
    reveal_strlit("cxx");
    reveal_strlit("cc");
    reveal_strlit("hpp");
    reveal_strlit("hxx");
    reveal_strlit("cs");
    reveal_strlit("rs");
    reveal_strlit("d");
    reveal_strlit("di");
    reveal_strlit("nim");
    reveal_strlit("nims");
    reveal_strlit("odin");
    reveal_strlit("ha");
    match l {
        Language::V => {
            assert(extension_language("v"@) == Some(Language::V));
        },
        Language::Zig => {
            assert("zig"@.len() != "v"@.len());
            assert(extension_language("zig"@) == Some(Language::Zig));
        },
        Language::C => {
            assert("c"@[0] != "v"@[0]);
            assert("c"@.len() != "zig"@.len());
            assert(extension_language("c"@) == Some(Language::C));
            assert("h"@[0] != "v"@[0]);
            assert("h"@.len() != "zig"@.len());
            assert("h"@[0] != "c"@[0]);
            assert(extension_language("h"@) == Some(Language::C));
        },
        Language::Cpp => {
            assert("cpp"@.len() != "v"@.len());
            assert("cpp"@[0] != "zig"@[0]);
            assert("cpp"@.len() != "c"@.len());
            assert("cpp"@.len() != "h"@.len());
            assert(extension_language("cpp"@) == Some(Language::Cpp));
            assert("cxx"@.len() != "v"@.len());
            assert("cxx"@[0] != "zig"@[0]);
            assert("cxx"@.len() != "c"@.len());
            assert("cxx"@.len() != "h"@.len());
            assert("cxx"@[1] != "cpp"@[1]);
            assert(extension_language("cxx"@) == Some(Language::Cpp));
            assert("cc"@.len() != "v"@.len());
            assert("cc"@.len() != "zig"@.len());
            assert("cc"@.len() != "c"@.len());
            assert("cc"@.len() != "h"@.len());
            assert("cc"@.len() != "cpp"@.len());
            assert("cc"@.len() != "cxx"@.len());
            assert(extension_language("cc"@) == Some(Language::Cpp));
            assert("hpp"@.len() != "v"@.len());
            assert("hpp"@[0] != "zig"@[0]);
            assert("hpp"@.len() != "c"@.len());
            assert("hpp"@.len() != "h"@.len());
            assert("hpp"@[0] != "cpp"@[0]);
            assert("hpp"@[0] != "cxx"@[0]);
            assert("hpp"@.len() != "cc"@.len());
            assert(extension_language("hpp"@) == Some(Language::Cpp));
            assert("hxx"@.len() != "v"@.len());
            assert("hxx"@[0] != "zig"@[0]);
            assert("hxx"@.len() != "c"@.len());
            assert("hxx"@.len() != "h"@.len());
            assert("hxx"@[0] != "cpp"@[0]);
            assert("hxx"@[0] != "cxx"@[0]);
            assert("hxx"@.len() != "cc"@.len());
            assert("hxx"@[1] != "hpp"@[1]);
            assert(extension_language("hxx"@) == Some(Language::Cpp));
        },
        Language::CSharp => {
            assert("cs"@.len() != "v"@.len());
            assert("cs"@.len() != "zig"@.len());
            assert("cs"@.len() != "c"@.len());
            assert("cs"@.len() != "h"@.len());
            assert("cs"@.len() != "cpp"@.len());
            assert("cs"@.len() != "cxx"@.len());
            assert("cs"@[1] != "cc"@[1]);
            assert("cs"@.len() != "hpp"@.len());
            assert("cs"@.len() != "hxx"@.len());
            assert(extension_language("cs"@) == Some(Language::CSharp));
        },
        Language::Rust => {
            assert("rs"@.len() != "v"@.len());
            assert("rs"@.len() != "zig"@.len());
            assert("rs"@.len() != "c"@.len());
            assert("rs"@.len() != "h"@.len());
            assert("rs"@.len() != "cpp"@.len());
            assert("rs"@.len() != "cxx"@.len());
            assert("rs"@[0] != "cc"@[0]);
            assert("rs"@.len() != "hpp"@.len());
            assert("rs"@.len() != "hxx"@.len());
            assert("rs"@[0] != "cs"@[0]);
            assert(extension_language("rs"@) == Some(Language::Rust));
        },
        Language::D => {
            assert("d"@[0] != "v"@[0]);
            assert("d"@.len() != "zig"@.len());
            assert("d"@[0] != "c"@[0]);
            assert("d"@[0] != "h"@[0]);
            assert("d"@.len() != "cpp"@.len());
            assert("d"@.len() != "cxx"@.len());
            assert("d"@.len() != "cc"@.len());
            assert("d"@.len() != "hpp"@.len());
            assert("d"@.len() != "hxx"@.len());
            assert("d"@.len() != "cs"@.len());
            assert("d"@.len() != "rs"@.len());
            assert(extension_language("d"@) == Some(Language::D));
            assert("di"@.len() != "v"@.len());
            assert("di"@.len() != "zig"@.len());
            assert("di"@.len() != "c"@.len());
            assert("di"@.len() != "h"@.len());
            assert("di"@.len() != "cpp"@.len());
            assert("di"@.len() != "cxx"@.len());
            assert("di"@[0] != "cc"@[0]);
            assert("di"@.len() != "hpp"@.len());
            assert("di"@.len() != "hxx"@.len());
            assert("di"@[0] != "cs"@[0]);
            assert("di"@[0] != "rs"@[0]);
            assert("di"@.len() != "d"@.len());
            assert(extension_language("di"@) == Some(Language::D));
        },
        Language::Nim => {
            assert("nim"@.len() != "v"@.len());
            assert("nim"@[0] != "zig"@[0]);
            assert("nim"@.len() != "c"@.len());
            assert("nim"@.len() != "h"@.len());
            assert("nim"@[0] != "cpp"@[0]);
            assert("nim"@[0] != "cxx"@[0]);
            assert("nim"@.len() != "cc"@.len());
            assert("nim"@[0] != "hpp"@[0]);
            assert("nim"@[0] != "hxx"@[0]);
            assert("nim"@.len() != "cs"@.len());
            assert("nim"@.len() != "rs"@.len());
            assert("nim"@.len() != "d"@.len());
            assert("nim"@.len() != "di"@.len());
            assert(extension_language("nim"@) == Some(Language::Nim));
            assert("nims"@.len() != "v"@.len());
            assert("nims"@.len() != "zig"@.len());
            assert("nims"@.len() != "c"@.len());
            assert("nims"@.len() != "h"@.len());
            assert("nims"@.len() != "cpp"@.len());
            assert("nims"@.len() != "cxx"@.len());
            assert("nims"@.len() != "cc"@.len());
            assert("nims"@.len() != "hpp"@.len());
            assert("nims"@.len() != "hxx"@.len());
            assert("nims"@.len() != "cs"@.len());
            assert("nims"@.len() != "rs"@.len());
            assert("nims"@.len() != "d"@.len());
            assert("nims"@.len() != "di"@.len());
            assert("nims"@.len() != "nim"@.len());
            assert(extension_language("nims"@) == Some(Language::Nim));
        },
        Language::Odin => {
            assert("odin"@.len() != "v"@.len());
            assert("odin"@.len() != "zig"@.len());
            assert("odin"@.len() != "c"@.len());
            assert("odin"@.len() != "h"@.len());
            assert("odin"@.len() != "cpp"@.len());
            assert("odin"@.len() != "cxx"@.len());
            assert("odin"@.len() != "cc"@.len());
            assert("odin"@.len() != "hpp"@.len());
            assert("odin"@.len() != "hxx"@.len());
            assert("odin"@.len() != "cs"@.len());
            assert("odin"@.len() != "rs"@.len());
            assert("odin"@.len() != "d"@.len());
            assert("odin"@.len() != "di"@.len());
            assert("odin"@.len() != "nim"@.len());
            assert("odin"@[0] != "nims"@[0]);
            assert(extension_language("odin"@) == Some(Language::Odin));
        },
        Language::Hare => {
            assert("ha"@.len() != "v"@.len());
            assert("ha"@.len() != "zig"@.len());
            assert("ha"@.len() != "c"@.len());
            assert("ha"@.len() != "h"@.len());
            assert("ha"@.len() != "cpp"@.len());
            assert("ha"@.len() != "cxx"@.len());
            assert("ha"@[0] != "cc"@[0]);
            assert("ha"@.len() != "hpp"@.len());
            assert("ha"@.len() != "hxx"@.len());
            assert("ha"@[0] != "cs"@[0]);
            assert("ha"@[0] != "rs"@[0]);
            assert("ha"@.len() != "d"@.len());
            assert("ha"@[0] != "di"@[0]);
            assert("ha"@.len() != "nim"@.len());
            assert("ha"@.len() != "nims"@.len());
            assert("ha"@.len() != "odin"@.len());
            assert(extension_language("ha"@) == Some(Language::Hare));
        },
    }
}

/// A detected extension is one of the extensions listed for the language.
pub proof fn law_detected_extension_listed(e: Seq<char>)
    ensures
        extension_language(e) matches Some(l) ==> spec_extensions(l).contains(e),
{
    if let Some(l) = extension_language(e) {
        let x = spec_extensions(l);
        if e == x[0] {
        } else if x.len() > 1 && e == x[1] {
        } else if x.len() > 2 && e == x[2] {
        } else if x.len() > 3 && e == x[3] {
        } else {
            assert(x.len() > 4 && e == x[4]);
        }
    }
}

/// `detect_language` is a lookup of the lower-cased extension: a path's
/// extension `e` is detected as `l` exactly when `l` lists the lower-cased
/// form of `e` among its extensions (and for an ASCII extension that form is
/// its ASCII lowercase). No extension is listed by two languages.
pub proof fn law_detect_language_by_extension(e: Seq<char>, l: Language)
    ensures
        spec_language_for_extension(e) == Some(l) <==> spec_extensions(l).contains(unicode_lowercase(e)),
        extension_language(e) == Some(l) <==> spec_extensions(l).contains(e),
{
    law_detected_extension_listed(e);
    law_detected_extension_listed(unicode_lowercase(e));
    if spec_extensions(l).contains(e) {
        let k = choose|k: int| 0 <= k < spec_extensions(l).len() && spec_extensions(l)[k] == e;
        law_listed_extension_detected(l, k);
    }
    let x = unicode_lowercase(e);
    if spec_extensions(l).contains(x) {
        let k = choose|k: int| 0 <= k < spec_extensions(l).len() && spec_extensions(l)[k] == x;
        law_listed_extension_detected(l, k);
    }
}

/// The command-line name of every language, in any ASCII case (`ZIG`,
/// `Zig`, `zig`), reads back as that language.
pub proof fn law_cli_name_round_trip(l: Language)
    ensures
        spec_cli_language(to_ascii_lower(spec_cli_name(l))) == Some(l),
        forall|s: Seq<char>| to_ascii_lower(s) == spec_cli_name(l) ==> #[trigger] spec_cli_language(to_ascii_lower(s)) == Some(l),
{
    reveal_strlit("v");
    reveal_strlit("vlang");
    reveal_strlit("zig");
    reveal_strlit("c");
    reveal_strlit("cpp");
    reveal_strlit("c++");
    reveal_strlit("cxx");
    reveal_strlit("csharp");
    reveal_strlit("c#");
    reveal_strlit("cs");
    reveal_strlit("dotnet");
    reveal_strlit("rust");
    reveal_strlit("rs");
    reveal_strlit("d");
    reveal_strlit("nim");
    reveal_strlit("odin");
    reveal_strlit("hare");
    let n = spec_cli_name(l);
    assert(to_ascii_lower(n) =~= n);
    match l {
        Language::V => {
        },
        Language::Zig => {
            assert("zig"@.len() != "v"@.len());
            assert("zig"@.len() != "vlang"@.len());
        },
        Language::C => {
            assert("c"@[0] != "v"@[0]);
            assert("c"@.len() != "vlang"@.len());
            assert("c"@.len() != "zig"@.len());
        },
        Language::Cpp => {
            assert("cpp"@.len() != "v"@.len());
            assert("cpp"@.len() != "vlang"@.len());
            assert("cpp"@[0] != "zig"@[0]);
            assert("cpp"@.len() != "c"@.len());
        },
        Language::CSharp => {
            assert("csharp"@.len() != "v"@.len());
            assert("csharp"@.len() != "vlang"@.len());
            assert("csharp"@.len() != "zig"@.len());
            assert("csharp"@.len() != "c"@.len());
            assert("csharp"@.len() != "cpp"@.len());
            assert("csharp"@.len() != "c++"@.len());
            assert("csharp"@.len() != "cxx"@.len());
        },
        Language::Rust => {
            assert("rust"@.len() != "v"@.len());
            assert("rust"@.len() != "vlang"@.len());
            assert("rust"@.len() != "zig"@.len());
            assert("rust"@.len() != "c"@.len());
            assert("rust"@.len() != "cpp"@.len());
            assert("rust"@.len() != "c++"@.len());
            assert("rust"@.len() != "cxx"@.len());
            assert("rust"@.len() != "csharp"@.len());
            assert("rust"@.len() != "c#"@.len());
            assert("rust"@.len() != "cs"@.len());
            assert("rust"@.len() != "dotnet"@.len());
        },
        Language::D => {
            assert("d"@[0] != "v"@[0]);
            assert("d"@.len() != "vlang"@.len());
            assert("d"@.len() != "zig"@.len());
            assert("d"@[0] != "c"@[0]);
            assert("d"@.len() != "cpp"@.len());
            assert("d"@.len() != "c++"@.len());
            assert("d"@.len() != "cxx"@.len());
            assert("d"@.len() != "csharp"@.len());
            assert("d"@.len() != "c#"@.len());
            assert("d"@.len() != "cs"@.len());
            assert("d"@.len() != "dotnet"@.len());
            assert("d"@.len() != "rust"@.len());
            assert("d"@.len() != "rs"@.len());
        },
        Language::Nim => {
            assert("nim"@.len() != "v"@.len());
            assert("nim"@.len() != "vlang"@.len());
            assert("nim"@[0] != "zig"@[0]);
            assert("nim"@.len() != "c"@.len());
            assert("nim"@[0] != "cpp"@[0]);
            assert("nim"@[0] != "c++"@[0]);
            assert("nim"@[0] != "cxx"@[0]);
            assert("nim"@.len() != "csharp"@.len());
            assert("nim"@.len() != "c#"@.len());
            assert("nim"@.len() != "cs"@.len());
            assert("nim"@.len() != "dotnet"@.len());
            assert("nim"@.len() != "rust"@.len());
            assert("nim"@.len() != "rs"@.len());
            assert("nim"@.len() != "d"@.len());
        },
        Language::Odin => {
            assert("odin"@.len() != "v"@.len());
            assert("odin"@.len() != "vlang"@.len());
            assert("odin"@.len() != "zig"@.len());
            assert("odin"@.len() != "c"@.len());
            assert("odin"@.len() != "cpp"@.len());
            assert("odin"@.len() != "c++"@.len());
            assert("odin"@.len() != "cxx"@.len());
            assert("odin"@.len() != "csharp"@.len());
            assert("odin"@.len() != "c#"@.len());
            assert("odin"@.len() != "cs"@.len());
            assert("odin"@.len() != "dotnet"@.len());
            assert("odin"@[0] != "rust"@[0]);
            assert("odin"@.len() != "rs"@.len());
            assert("odin"@.len() != "d"@.len());
            assert("odin"@.len() != "nim"@.len());
        },
        Language::Hare => {
            assert("hare"@.len() != "v"@.len());
            assert("hare"@.len() != "vlang"@.len());
            assert("hare"@.len() != "zig"@.len());
            assert("hare"@.len() != "c"@.len());
            assert("hare"@.len() != "cpp"@.len());
            assert("hare"@.len() != "c++"@.len());
            assert("hare"@.len() != "cxx"@.len());
            assert("hare"@.len() != "csharp"@.len());
            assert("hare"@.len() != "c#"@.len());
            assert("hare"@.len() != "cs"@.len());
            assert("hare"@.len() != "dotnet"@.len());
            assert("hare"@[0] != "rust"@[0]);
            assert("hare"@.len() != "rs"@.len());
            assert("hare"@.len() != "d"@.len());
            assert("hare"@.len() != "nim"@.len());
            assert("hare"@[0] != "odin"@[0]);
        },
    }
}

/// `Language::all` lists ten languages, each once, and every language is among them.
pub proof fn law_all_languages(l: Language)
    ensures
        all_languages().len() == 10,
        all_languages().contains(l),
        forall|i: int, j: int| 0 <= i < j < 10 ==> all_languages()[i] != all_languages()[j],
{
    lemma_language_in_all(l);
}

/// The compiler arguments of every language name the input file and end one
/// argument with the output path.
pub proof fn law_to_c_args_name_input_and_output(l: Language, input: Seq<char>, output: Seq<char>)
    ensures
        spec_to_c_args(l, input, output).contains(input),
        exists|k: int| 0 <= k < spec_to_c_args(l, input, output).len()
            && ends_with(#[trigger] spec_to_c_args(l, input, output)[k], output),
{
    let a = spec_to_c_args(l, input, output);
    let k: int = match l {
        Language::V => 1,
        Language::Zig => 1,
        Language::C => 2,
        Language::Cpp => 2,
        Language::CSharp => 1,
        Language::Rust => 2,
        Language::D => 1,
        Language::Nim => 2,
        Language::Odin => 2,
        Language::Hare => 2,
    };
    let i: int = match l {
        Language::V => 4,
        Language::Zig => 2,
        Language::C => 3,
        Language::Cpp => 3,
        Language::CSharp => 2,
        Language::Rust => 3,
        Language::D => 3,
        Language::Nim => 3,
        Language::Odin => 1,
        Language::Hare => 3,
    };
    assert(a[i] == input);
    assert(a[k].skip(a[k].len() - output.len()) =~= output);
    assert(ends_with(a[k], output));
}

/// Every language is one of `all_languages`.
pub proof fn lemma_language_in_all(l: Language)
    ensures
        all_languages().contains(l),
{
    let a = all_languages();
    match l {
        Language::V => assert(a[0] == l),
        Language::Zig => assert(a[1] == l),
        Language::C => assert(a[2] == l),
        Language::Cpp => assert(a[3] == l),
        Language::CSharp => assert(a[4] == l),
        Language::Rust => assert(a[5] == l),
        Language::D => assert(a[6] == l),
        Language::Nim => assert(a[7] == l),
        Language::Odin => assert(a[8] == l),
        Language::Hare => assert(a[9] == l),
    }
}

} // verus!
