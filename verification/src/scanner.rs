//! Finding the C libraries of a directory tree and choosing their main headers.

use vstd::prelude::*;

use crate::bindings::{BindingOptions, GeneratedBinding};
use crate::paths::{
    as_path, buf_as_path, buf_path, path_file_name, path_file_name_text, path_file_stem,
    path_file_stem_text, text_or, to_path_buf,
};
use crate::text::{
    chars_lt, chars_of, contains_seq, find_char, find_char_in, lemma_find_char, contains_str, ends_with, ends_with_char, eq_str, join,
    join_chars, lemma_text_lt_order, push_chars, push_str, slice_chars, starts_with,
    starts_with_chars, starts_with_char, string_from, string_of, string_views, text_lt, views,
};

verus! {

broadcast use vstd::string::group_string_axioms;

/// A discovered C library with its headers.
#[derive(Clone, Debug)]
pub struct LibraryDiscovery {
    /// Library name (e.g., "stm32f4xx_hal")
    pub name: String,
    /// Root directory of the library
    pub root: std::path::PathBuf,
    /// All header files found
    pub headers: Vec<std::path::PathBuf>,
    /// Main/public header (if identifiable)
    pub main_header: Option<std::path::PathBuf>,
}

/// Options for automatic binding generation.
#[derive(Clone, Debug)]
pub struct AutoBindingOptions {
    /// Output directory for generated bindings (defaults to OUT_DIR/bindings)
    pub output_dir: Option<std::path::PathBuf>,
    /// Include subdirectories when scanning
    pub recursive: bool,
    /// File patterns to exclude (e.g., ["*_internal.h", "test_*.h"])
    pub exclude_patterns: Vec<String>,
    /// Whether to generate a unified mod.rs that re-exports everything
    pub generate_mod_rs: bool,
    /// Default binding options for all libraries
    pub default_binding_options: BindingOptions,
}

impl Default for AutoBindingOptions {
    fn default() -> (r: Self)
        ensures
            r.output_dir is None,
            r.recursive,
            string_views(r.exclude_patterns@) == seq!["*_internal.h"@, "*_private.h"@, "test_*.h"@],
            r.generate_mod_rs,
            r.default_binding_options.allowlist_functions@.len() == 0,
            r.default_binding_options.allowlist_types@.len() == 0,
            !r.default_binding_options.derive_debug,
            !r.default_binding_options.derive_default,
    {
        let mut patterns: Vec<String> = Vec::new();
        patterns.push(string_from("*_internal.h"));
        patterns.push(string_from("*_private.h"));
        patterns.push(string_from("test_*.h"));
        assert(string_views(patterns@) =~= seq!["*_internal.h"@, "*_private.h"@, "test_*.h"@]);
        AutoBindingOptions {
            output_dir: None,
            recursive: true,
            exclude_patterns: patterns,
            generate_mod_rs: true,
            default_binding_options: BindingOptions::default(),
        }
    }
}

/// Scanner for discovering C libraries in a directory tree.
pub struct LibraryScanner {
    pub root: std::path::PathBuf,
    pub options: AutoBindingOptions,
}

/// Result of generating bindings for multiple libraries.
#[derive(Debug)]
pub struct GenerationResult {
    /// Output directory where bindings were written
    pub output_dir: std::path::PathBuf,
    /// Results for each library
    pub libraries: Vec<LibraryBindingResult>,
}

/// Result of generating bindings for a single library.
#[derive(Debug)]
pub struct LibraryBindingResult {
    /// The discovered library
    pub library: LibraryDiscovery,
    /// Path to the generated .rs file
    pub output_file: std::path::PathBuf,
    /// The generated binding
    pub binding: GeneratedBinding,
}

/// A file name matches a pattern: `*SUFFIX`, `PREFIX*`, `PREFIX*SUFFIX`
/// (split at the first `*`, the two parts not overlapping in the name), or
/// the exact name.
pub open spec fn pattern_matches(name: Seq<char>, pattern: Seq<char>) -> bool {
    if starts_with(pattern, seq!['*']) {
        ends_with(name, pattern.drop_first())
    } else if ends_with(pattern, seq!['*']) {
        starts_with(name, pattern.drop_last())
    } else {
        match find_char(pattern, '*') {
            Some(i) => name.len() + 1 >= pattern.len() && starts_with(name, pattern.take(i)) && ends_with(
                name,
                pattern.skip(i + 1),
            ),
            None => name == pattern,
        }
    }
}

/// A file name matches one of the patterns.
pub open spec fn excluded_by(name: Seq<char>, patterns: Seq<Seq<char>>) -> bool {
    exists|k: int| 0 <= k < patterns.len() && pattern_matches(name, #[trigger] patterns[k])
}

fn pattern_matches_exec(name: &[char], pattern: &str) -> (r: bool)
    ensures
        r == pattern_matches(name@, pattern@),
{
    let p = chars_of(pattern);
    let n = p.len();
    if starts_with_char(p.as_slice(), '*') {
        let suffix = slice_chars(p.as_slice(), 1, n);
        assert(suffix@ =~= p@.drop_first());
        crate::text::ends_with_chars(name, suffix.as_slice())
    } else if ends_with_char(p.as_slice(), '*') {
        let prefix = slice_chars(p.as_slice(), 0, n - 1);
        starts_with_chars(name, prefix.as_slice())
    } else {
        proof {
            lemma_find_char(p@, '*');
        }
        match find_char_in(p.as_slice(), '*') {
            Some(i) => {
                let prefix = slice_chars(p.as_slice(), 0, i);
                let suffix = slice_chars(p.as_slice(), i + 1, n);
                assert(prefix@ =~= p@.take(i as int));
                assert(suffix@ =~= p@.skip(i + 1));
                n - 1 <= name.len() && starts_with_chars(name, prefix.as_slice())
                    && crate::text::ends_with_chars(name, suffix.as_slice())
            },
            None => eq_str(name, pattern),
        }
    }
}

/// Whether a file name matches one of the patterns.
pub fn name_excluded(name: &str, patterns: &Vec<String>) -> (r: bool)
    ensures
        r == excluded_by(name@, string_views(patterns@)),
{
    let cs = chars_of(name);
    let mut k: usize = 0;
    while k < patterns.len()
        invariant
            k <= patterns@.len(),
            cs@ == name@,
            forall|m: int| 0 <= m < k ==> !pattern_matches(name@, #[trigger] string_views(patterns@)[m]),
        decreases patterns.len() - k,
    {
        if pattern_matches_exec(cs.as_slice(), patterns[k].as_str()) {
            assert(pattern_matches(name@, string_views(patterns@)[k as int]));
            return true;
        }
        k = k + 1;
    }
    false
}

/// The UTF-8 length of a text, as `str::len` reports it.
pub open spec fn byte_len(s: Seq<char>) -> usize {
    vstd::utf8::encode_utf8(s).len() as usize
}

/// The rank of a header stem as main header: 0 when it names an API or
/// public header, 1 when short (under 15 bytes), else 2.
pub open spec fn header_score(stem: Seq<char>) -> int {
    if contains_seq(stem, "api"@) || contains_seq(stem, "public"@) {
        0
    } else if byte_len(stem) < 15 {
        1
    } else {
        2
    }
}

/// Header `a` ranks strictly before header `b`: lower score, then shorter stem.
pub open spec fn ranks_before(a: Seq<char>, b: Seq<char>) -> bool {
    header_score(a) < header_score(b) || (header_score(a) == header_score(b) && byte_len(a) < byte_len(b))
}

/// `k` is the first of the best-ranked stems.
pub open spec fn is_main_index(stems: Seq<Seq<char>>, k: int) -> bool {
    &&& 0 <= k < stems.len()
    &&& forall|j: int| 0 <= j < stems.len() ==> !ranks_before(#[trigger] stems[j], stems[k])
    &&& forall|j: int| 0 <= j < k ==> ranks_before(stems[k], #[trigger] stems[j])
}

/// At most one header is the main one: the ranking leaves no tie unbroken,
/// since among equally ranked headers the first one wins.
pub proof fn law_main_header_unique(stems: Seq<Seq<char>>, k1: int, k2: int)
    requires
        is_main_index(stems, k1),
        is_main_index(stems, k2),
    ensures
        k1 == k2,
{
    if k1 < k2 {
        assert(ranks_before(stems[k2], stems[k1]));
        assert(!ranks_before(stems[k2], stems[k1]));
    } else if k2 < k1 {
        assert(ranks_before(stems[k1], stems[k2]));
        assert(!ranks_before(stems[k1], stems[k2]));
    }
}

fn header_key(stem: &String) -> (r: (u8, usize))
    ensures
        r.0 as int == header_score(stem@),
        r.1 == byte_len(stem@),
{
    let cs = chars_of(stem.as_str());
    let text = stem.as_str();
    let len = text.len();
    assert(text@ == stem@);
    let score: u8 = if contains_str(cs.as_slice(), "api") || contains_str(cs.as_slice(), "public") {
        0
    } else if len < 15 {
        1
    } else {
        2
    };
    (score, len)
}

/// The index of the main header among header stems: the first with the
/// lowest (score, length), as `Iterator::min_by_key` picks it.
pub fn main_header_index(stems: &Vec<String>) -> (r: Option<usize>)
    ensures
        r is None <==> stems@.len() == 0,
        r matches Some(k) ==> is_main_index(string_views(stems@), k as int),
{
    if stems.len() == 0 {
        return None;
    }
    let ghost sv = string_views(stems@);
    let mut best: usize = 0;
    let mut best_key = header_key(&stems[0]);
    let mut i: usize = 1;
    while i < stems.len()
        invariant
            1 <= i <= stems@.len(),
            sv == string_views(stems@),
            best < i,
            best_key.0 as int == header_score(sv[best as int]),
            best_key.1 == byte_len(sv[best as int]),
            forall|j: int| 0 <= j < i ==> !ranks_before(#[trigger] sv[j], sv[best as int]),
            forall|j: int| 0 <= j < best ==> ranks_before(sv[best as int], #[trigger] sv[j]),
        decreases stems.len() - i,
    {
        let key = header_key(&stems[i]);
        if key.0 < best_key.0 || (key.0 == best_key.0 && key.1 < best_key.1) {
            assert(ranks_before(sv[i as int], sv[best as int]));
            best = i;
            best_key = key;
        }
        i = i + 1;
    }
    Some(best)
}

impl LibraryScanner {
    /// A scanner for the directory `root`, with default options.
    pub fn new<P: AsRef<std::path::Path>>(root: P) -> (r: Self)
        ensures
            r.options.recursive,
            r.options.generate_mod_rs,
            r.options.output_dir is None,
            string_views(r.options.exclude_patterns@) == seq!["*_internal.h"@, "*_private.h"@, "test_*.h"@],
    {
        LibraryScanner { root: to_path_buf(as_path(&root)), options: AutoBindingOptions::default() }
    }

    /// The scanner with other options.
    pub fn with_options(self, options: AutoBindingOptions) -> (r: Self)
        ensures
            r.root == self.root,
            r.options == options,
    {
        LibraryScanner { root: self.root, options }
    }

    /// Whether a header is left out by the exclude patterns, compared with its
    /// file name (an empty name when it has none).
    pub fn should_exclude(&self, path: &std::path::Path) -> (r: bool)
        ensures
            r == excluded_by(text_or(path_file_name_text(path), ""@), string_views(self.options.exclude_patterns@)),
    {
        let name = match path_file_name(path) {
            Some(n) => n,
            None => string_from(""),
        };
        assert(name@ == text_or(path_file_name_text(path), ""@));
        name_excluded(name.as_str(), &self.options.exclude_patterns)
    }

    /// Whether a file found in a scan is taken as a header of a library: its
    /// extension is `h` and its name matches no exclude pattern.
    pub fn header_wanted(&self, extension: Option<&str>, file_name: &str) -> (r: bool)
        ensures
            r == ((extension matches Some(e) && e@ == "h"@) && !excluded_by(
                file_name@,
                string_views(self.options.exclude_patterns@),
            )),
    {
        match extension {
            Some(e) => {
                let cs = chars_of(e);
                eq_str(cs.as_slice(), "h") && !name_excluded(file_name, &self.options.exclude_patterns)
            },
            None => false,
        }
    }

    /// The main header among `headers`: the first of the best ranked by
    /// `main_header_index` over their file stems.
    pub fn find_main_header(&self, headers: &Vec<std::path::PathBuf>) -> (r: Option<std::path::PathBuf>)
        ensures
            r is Some <==> headers@.len() > 0,
            r matches Some(h) ==> exists|k: int| is_main_index(header_stems(headers@), k) && h == headers@[k],
    {
        let mut stems: Vec<String> = Vec::new();
        for i in 0..headers.len()
            invariant
                string_views(stems@) == header_stems(headers@.take(i as int)),
        {
            let stem = match path_file_stem(buf_as_path(&headers[i])) {
                Some(s) => s,
                None => string_from(""),
            };
            stems.push(stem);
            assert(header_stems(headers@.take(i + 1)) =~= header_stems(headers@.take(i as int)).push(stem@));
            assert(string_views(stems@) =~= string_views(stems@.drop_last()).push(stems@.last()@));
        }
        assert(headers@.take(headers@.len() as int) =~= headers@);
        match main_header_index(&stems) {
            Some(k) => Some(headers[k].clone()),
            None => None,
        }
    }
}

/// The file stems of headers, an empty stem where a header has none.
pub open spec fn header_stems(hs: Seq<std::path::PathBuf>) -> Seq<Seq<char>> {
    hs.map_values(|h: std::path::PathBuf| text_or(path_file_stem_text(buf_path(&h)), ""@))
}

/// A scanner for the directory `root` (the start of a builder chain).
pub fn scan_c_libraries<P: AsRef<std::path::Path>>(root: P) -> (r: LibraryScanner)
    ensures
        r.options.recursive,
        r.options.generate_mod_rs,
        string_views(r.options.exclude_patterns@) == seq!["*_internal.h"@, "*_private.h"@, "test_*.h"@],
{
    LibraryScanner::new(root)
}

/// The default exclude patterns leave out exactly the headers whose names end
/// in `_internal.h` or `_private.h`, or begin with `test_` and end in `.h`.
pub proof fn law_default_exclusions(name: Seq<char>)
    ensures
        excluded_by(name, seq!["*_internal.h"@, "*_private.h"@, "test_*.h"@]) <==> (ends_with(name, "_internal.h"@)
            || ends_with(name, "_private.h"@) || (name.len() >= 7 && starts_with(name, "test_"@) && ends_with(
            name,
            ".h"@,
        ))),
{
    reveal_strlit("*_internal.h");
    reveal_strlit("*_private.h");
    reveal_strlit("test_*.h");
    reveal_strlit("_internal.h");
    reveal_strlit("_private.h");
    reveal_strlit("test_");
    reveal_strlit(".h");
    let ps = seq!["*_internal.h"@, "*_private.h"@, "test_*.h"@];
    let t = "test_*.h"@;
    assert("*_internal.h"@.drop_first() =~= "_internal.h"@);
    assert("*_private.h"@.drop_first() =~= "_private.h"@);
    assert(!starts_with(t, seq!['*'])) by {
        assert(t.take(1)[0] == 't');
    }
    assert(!ends_with(t, seq!['*'])) by {
        assert(t.skip(7)[0] == 'h');
    }
    assert(starts_with("*_internal.h"@, seq!['*'])) by {
        assert("*_internal.h"@.take(1) =~= seq!['*']);
    }
    assert(starts_with("*_private.h"@, seq!['*'])) by {
        assert("*_private.h"@.take(1) =~= seq!['*']);
    }
    lemma_find_char(t, '*');
    assert(find_char(t, '*') == Some(5int)) by {
        if let Some(i) = find_char(t, '*') {
            if i < 5 {
                assert(t[i] != '*');
            } else if i > 5 {
                assert(t[5] == '*');
            }
        } else {
            assert(t[5] == '*');
        }
    }
    assert(t.take(5) =~= "test_"@);
    assert(t.skip(6) =~= ".h"@);
    assert(pattern_matches(name, ps[2]) <==> (name.len() >= 7 && starts_with(name, "test_"@) && ends_with(
        name,
        ".h"@,
    )));
    if ends_with(name, "_internal.h"@) {
        assert(pattern_matches(name, ps[0]));
    }
    if ends_with(name, "_private.h"@) {
        assert(pattern_matches(name, ps[1]));
    }
    if name.len() >= 7 && starts_with(name, "test_"@) && ends_with(name, ".h"@) {
        assert(pattern_matches(name, ps[2]));
    }
}

/// The module name for a header stem: `-` and `.` become `_`.
pub open spec fn spec_module_name(stem: Seq<char>) -> Seq<char> {
    stem.map_values(|c: char| if c == '-' || c == '.' { '_' } else { c })
}

/// The module name under which the bindings of a header are written.
pub fn module_name(stem: &str) -> (r: String)
    ensures
        r@ == spec_module_name(stem@),
{
    let cs = chars_of(stem);
    let mut out: Vec<char> = Vec::new();
    for i in 0..cs.len()
        invariant
            cs@ == stem@,
            out@ == spec_module_name(stem@.take(i as int)),
    {
        let c = cs[i];
        out.push(if c == '-' || c == '.' { '_' } else { c });
        assert(spec_module_name(stem@.take(i + 1)) =~= spec_module_name(stem@.take(i as int)).push(
            if c == '-' || c == '.' { '_' } else { c },
        ));
    }
    assert(stem@.take(stem@.len() as int) =~= stem@);
    string_of(out.as_slice())
}

/// The declaration of a generated module.
pub fn mod_declaration(name: &str) -> (r: String)
    ensures
        r@ == "pub mod "@ + name@ + ";"@,
{
    let mut out = string_from("pub mod ");
    push_str(&mut out, name);
    push_str(&mut out, ";");
    out
}

/// Strictly increasing in character order.
pub open spec fn strictly_sorted(s: Seq<Seq<char>>) -> bool {
    forall|i: int, j: int| 0 <= i < j < s.len() ==> text_lt(s[i], s[j])
}

/// Two lists hold the same texts (each possibly more than once).
pub open spec fn same_texts(a: Seq<Seq<char>>, b: Seq<Seq<char>>) -> bool {
    forall|x: Seq<char>| a.contains(x) <==> b.contains(x)
}

/// Where `v` goes in a sorted list: after every text before it.
fn insertion_point(out: &Vec<String>, v: &[char]) -> (pos: usize)
    ensures
        pos <= out@.len(),
        forall|k: int| 0 <= k < pos ==> text_lt(#[trigger] out@[k]@, v@),
        pos < out@.len() ==> !text_lt(out@[pos as int]@, v@),
{
    let mut pos: usize = 0;
    while pos < out.len()
        invariant
            pos <= out@.len(),
            forall|k: int| 0 <= k < pos ==> text_lt(#[trigger] out@[k]@, v@),
        decreases out.len() - pos,
    {
        let o = chars_of(out[pos].as_str());
        if !chars_lt(o.as_slice(), v) {
            return pos;
        }
        pos = pos + 1;
    }
    pos
}

/// The texts of `values` in character order, each once (what `sort` and
/// then `dedup` leave).
fn sorted_unique(values: &Vec<String>) -> (r: Vec<String>)
    ensures
        strictly_sorted(string_views(r@)),
        same_texts(string_views(r@), string_views(values@)),
{
    let ghost vs = string_views(values@);
    let mut out: Vec<String> = Vec::new();
    for i in 0..values.len()
        invariant
            vs == string_views(values@),
            strictly_sorted(string_views(out@)),
            same_texts(string_views(out@), vs.take(i as int)),
    {
        let v = chars_of(values[i].as_str());
        let pos = insertion_point(&out, v.as_slice());
        let ghost o = string_views(out@);
        let ghost x = v@;
        let ghost before = vs.take(i as int);
        let ghost after = vs.take(i + 1);
        assert(after =~= before.push(x));
        let present = if pos < out.len() {
            let o_pos = chars_of(out[pos].as_str());
            eq_str(o_pos.as_slice(), values[i].as_str())
        } else {
            false
        };
        if present {
            assert(o[pos as int] == x);
            assert forall|y: Seq<char>| o.contains(y) <==> after.contains(y) by {
                if y == x {
                    assert(o[pos as int] == y);
                }
                if after.contains(y) && y != x {
                    let k = choose|k: int| 0 <= k < after.len() && after[k] == y;
                    assert(before[k] == y);
                }
                if before.contains(y) {
                    let k = choose|k: int| 0 <= k < before.len() && before[k] == y;
                    assert(after[k] == y);
                }
            }
        } else {
            if pos < out.len() {
                proof {
                    lemma_text_lt_order(o[pos as int], x, x);
                }
                assert(text_lt(x, o[pos as int]));
            }
            out.insert(pos, values[i].clone());
            let ghost n = string_views(out@);
            assert(n =~= o.insert(pos as int, x));
            assert forall|a: int, b: int| 0 <= a < b < n.len() implies text_lt(n[a], n[b]) by {
                if b < pos {
                } else if b == pos {
                    assert(n[a] == o[a]);
                    assert(text_lt(out@[a]@, x));
                } else if a < pos {
                    assert(n[a] == o[a] && n[b] == o[b - 1]);
                } else if a == pos {
                    assert(n[b] == o[b - 1]);
                    if b - 1 > pos {
                        lemma_text_lt_order(x, o[pos as int], o[b - 1]);
                    }
                } else {
                    assert(n[a] == o[a - 1] && n[b] == o[b - 1]);
                }
            }
            assert forall|y: Seq<char>| n.contains(y) <==> after.contains(y) by {
                if n.contains(y) {
                    let k = choose|k: int| 0 <= k < n.len() && n[k] == y;
                    if k < pos {
                        assert(o[k] == y);
                    } else if k > pos {
                        assert(o[k - 1] == y);
                    }
                }
                if o.contains(y) {
                    let k = choose|k: int| 0 <= k < o.len() && o[k] == y;
                    if k < pos {
                        assert(n[k] == y);
                    } else {
                        assert(n[k + 1] == y);
                    }
                }
                if y == x {
                    assert(n[pos as int] == y);
                    assert(after[i as int] == y);
                }
                if after.contains(y) && y != x {
                    let k = choose|k: int| 0 <= k < after.len() && after[k] == y;
                    assert(before[k] == y);
                }
                if before.contains(y) {
                    let k = choose|k: int| 0 <= k < before.len() && before[k] == y;
                    assert(after[k] == y);
                }
            }
        }
    }
    assert(vs.take(values@.len() as int) =~= vs);
    out
}

/// The `mod.rs` that re-exports generated modules, given its declarations in order.
pub open spec fn spec_mod_rs(declarations: Seq<Seq<char>>) -> Seq<char> {
    "// Auto-generated by equilibrium-ffi\n// Re-exports all discovered C libraries\n\n"@ + join(declarations, "\n"@)
        + "\n"@
}

/// The `mod.rs` for the given module declarations: each once, in character order.
pub fn mod_rs_content(declarations: &Vec<String>) -> (r: String)
    ensures
        exists|s: Seq<Seq<char>>|
            strictly_sorted(s) && same_texts(s, string_views(declarations@)) && r@ == spec_mod_rs(s),
{
    let sorted = sorted_unique(declarations);
    let mut parts: Vec<Vec<char>> = Vec::new();
    for i in 0..sorted.len()
        invariant
            views(parts@) == string_views(sorted@.take(i as int)),
    {
        parts.push(chars_of(sorted[i].as_str()));
        assert(string_views(sorted@.take(i + 1)) =~= string_views(sorted@.take(i as int)).push(sorted@[i as int]@));
        assert(views(parts@) =~= views(parts@.drop_last()).push(parts@.last()@));
    }
    assert(sorted@.take(sorted@.len() as int) =~= sorted@);
    let body = join_chars(parts.as_slice(), "\n");
    let mut out = string_from("// Auto-generated by equilibrium-ffi\n// Re-exports all discovered C libraries\n\n");
    push_chars(&mut out, body.as_slice());
    push_str(&mut out, "\n");
    out
}

/// Two strictly sorted lists holding the same texts are the same list.
pub proof fn lemma_sorted_unique_determined(a: Seq<Seq<char>>, b: Seq<Seq<char>>)
    requires
        strictly_sorted(a),
        strictly_sorted(b),
        same_texts(a, b),
    ensures
        a == b,
    decreases a.len(),
{
    if a.len() == 0 {
        if b.len() > 0 {
            assert(b.contains(b[0]));
        }
        assert(a =~= b);
    } else {
        assert(a.contains(a[0]));
        assert(b.len() > 0);
        assert(b.contains(b[0]));
        let ka = choose|k: int| 0 <= k < a.len() && a[k] == b[0];
        let kb = choose|k: int| 0 <= k < b.len() && b[k] == a[0];
        if a[0] != b[0] {
            assert(ka > 0 && kb > 0);
            assert(text_lt(a[0], a[ka]));
            assert(text_lt(b[0], b[kb]));
            lemma_text_lt_order(a[0], b[0], a[0]);
        }
        let a1 = a.drop_first();
        let b1 = b.drop_first();
        assert forall|x: Seq<char>| a1.contains(x) <==> b1.contains(x) by {
            if a1.contains(x) {
                let k = choose|k: int| 0 <= k < a1.len() && a1[k] == x;
                assert(a[k + 1] == x);
                assert(text_lt(a[0], x));
                lemma_text_lt_order(x, x, x);
                assert(a.contains(x));
                assert(b.contains(x));
                let m = choose|m: int| 0 <= m < b.len() && b[m] == x;
                if m == 0 {
                    assert(x == a[0]);
                }
                assert(b1[m - 1] == x);
            }
            if b1.contains(x) {
                let k = choose|k: int| 0 <= k < b1.len() && b1[k] == x;
                assert(b[k + 1] == x);
                assert(text_lt(b[0], x));
                lemma_text_lt_order(x, x, x);
                assert(b.contains(x));
                assert(a.contains(x));
                let m = choose|m: int| 0 <= m < a.len() && a[m] == x;
                if m == 0 {
                    assert(x == b[0]);
                }
                assert(a1[m - 1] == x);
            }
        }
        lemma_sorted_unique_determined(a1, b1);
        assert(a =~= b) by {
            assert forall|k: int| 0 <= k < a.len() implies a[k] == b[k] by {
                if k > 0 {
                    assert(a[k] == a1[k - 1]);
                    assert(b[k] == b1[k - 1]);
                }
            }
        }
    }
}

/// `mod.rs` depends only on which declarations there are, not on their order
/// or repeats.
pub proof fn law_mod_rs_order_free(a: Seq<Seq<char>>, b: Seq<Seq<char>>, sa: Seq<Seq<char>>, sb: Seq<Seq<char>>)
    requires
        same_texts(a, b),
        strictly_sorted(sa),
        same_texts(sa, a),
        strictly_sorted(sb),
        same_texts(sb, b),
    ensures
        spec_mod_rs(sa) == spec_mod_rs(sb),
{
    lemma_sorted_unique_determined(sa, sb);
}

} // verus!
