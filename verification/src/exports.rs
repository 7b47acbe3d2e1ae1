//! Which functions of a source file to export through the C ABI: requested
//! names, a project's configuration, explicit export markers, or every
//! top-level function.

use vstd::prelude::*;

use crate::c_header::{
    c_fixed_int_name, is_fixed_width, lemma_fixed_int_scalar, law_fixed_width_integers_keep_width,
    rust_fixed_int_name, rust_type, c_int_bases, law_plain_integers_keep_c_meaning,
};
use crate::detector::Language;
use crate::paths::{as_path, buf_as_path, buf_path, display_string, path_display_text, to_path_buf};
use crate::text::{
    ascii_lowercase, chars_of, contains_char, contains_seq, contains_str, ends_with,
    ends_with_char, eq_str, find_char, find_char_in, find_seq, find_str_in, is_ws, lemma_find_char,
    lemma_find_seq, lemma_name_end, lemma_rfind_char, lines, lines_of, list_contains, name_end,
    name_end_in, push_str, rfind_char, rfind_char_in, slice_chars, split_char, split_char_of,
    starts_with, starts_with_char, starts_with_str, string_from, string_of, string_views,
    strip_all_prefix, strip_all_prefix_of, to_ascii_lower, trim, trim_chars, trim_end_char,
    trim_end_char_of, trim_start, trim_start_chars, views, words, words_of,
};

verus! {

broadcast use vstd::string::group_string_axioms;

/// Where a list of exports came from.
#[derive(Clone, Debug, PartialEq, Eq, Structural)]
pub enum ExportSource {
    /// Named by the caller.
    Requested,
    /// Named by an `equilibrium.toml` target.
    Config,
    /// Marked in the source (`#[ffi]`, `pub export`, `exportc`, `extern(C) export`, C declarations).
    ExplicitMarkers,
    /// Every top-level function, for lack of markers.
    AllFunctions,
}

/// The exports chosen for a source file.
#[derive(Clone, Debug, PartialEq, Eq)]
pub struct ExportDiscovery {
    pub exports: Vec<String>,
    pub source: ExportSource,
    pub warnings: Vec<String>,
}

/// Options for export discovery.
#[derive(Clone, Debug)]
pub struct ExportOptions {
    pub exports: Vec<String>,
    pub config_path: Option<std::path::PathBuf>,
}

impl Default for ExportOptions {
    fn default() -> (r: Self)
        ensures
            r.exports@.len() == 0,
            r.config_path is None,
    {
        ExportOptions { exports: Vec::new(), config_path: None }
    }
}

/// Owned copies of string literals, in order.
pub fn owned_strings<const N: usize>(items: [&str; N]) -> (r: Vec<String>)
    ensures
        string_views(r@) == items@.map_values(|s: &str| s@),
{
    let mut names: Vec<String> = Vec::new();
    for i in 0..N
        invariant
            N == items@.len(),
            string_views(names@) == items@.take(i as int).map_values(|s: &str| s@),
    {
        let ghost before = string_views(names@);
        let item: &str = items[i];
        let s = string_from(item);
        assert(item == items@[i as int]);
        names.push(s);
        assert(string_views(names@) =~= before.push(items@[i as int]@));
        assert(items@.take(i + 1).map_values(|s: &str| s@) =~= items@.take(i as int).map_values(
            |s: &str| s@,
        ).push(items@[i as int]@));
    }
    assert(items@.take(N as int) =~= items@);
    names
}

impl ExportOptions {
    /// Sets the requested exports.
    pub fn exports<const N: usize>(self, exports: [&str; N]) -> (r: Self)
        ensures
            string_views(r.exports@) == exports@.map_values(|s: &str| s@),
            r.config_path == self.config_path,
    {
        ExportOptions { exports: owned_strings(exports), config_path: self.config_path }
    }

    /// Sets the configuration file to read.
    pub fn config_path<P: AsRef<std::path::Path>>(self, path: P) -> (r: Self)
        ensures
            r.exports == self.exports,
            r.config_path is Some,
    {
        ExportOptions { exports: self.exports, config_path: Some(to_path_buf(as_path(&path))) }
    }
}

#[verifier::external_type_specification]
#[verifier::external_body]
pub struct ExIoError(std::io::Error);

/// Why export discovery failed.
#[derive(Debug)]
pub enum ExportError {
    Io { path: std::path::PathBuf, error: std::io::Error },
    Config { path: std::path::PathBuf, message: String },
}

/// The text of an I/O error (`io::Error` as `Display` prints it). Nothing is
/// stated of it.
#[verifier::external_body]
pub(crate) fn io_error_text(e: &std::io::Error) -> String {
    e.to_string()
}

impl ExportError {
    /// The message that describes the error.
    pub fn message(&self) -> (r: String)
        ensures
            self matches ExportError::Io { path, .. } ==> exists|e: Seq<char>|
                r@ == "failed to read exports from "@ + path_display_text(buf_path(&path)) + ": "@ + e,
            self matches ExportError::Config { path, message } ==> r@ == "failed to read config "@
                + path_display_text(buf_path(&path)) + ": "@ + message@,
    {
        match self {
            ExportError::Io { path, error } => {
                let mut m = string_from("failed to read exports from ");
                let shown = display_string(buf_as_path(path));
                push_str(&mut m, shown.as_str());
                push_str(&mut m, ": ");
                let text = io_error_text(error);
                push_str(&mut m, text.as_str());
                m
            },
            ExportError::Config { path, message } => {
                let mut m = string_from("failed to read config ");
                let shown = display_string(buf_as_path(path));
                push_str(&mut m, shown.as_str());
                push_str(&mut m, ": ");
                push_str(&mut m, message.as_str());
                m
            },
        }
    }
}

/// A function found in a source file.
#[derive(Clone, Debug)]
pub struct FunctionCandidate {
    pub name: String,
    pub signature: String,
    pub explicit: bool,
}

pub struct CandidateModel {
    pub name: Seq<char>,
    pub signature: Seq<char>,
    pub explicit: bool,
}

impl View for FunctionCandidate {
    type V = CandidateModel;

    open spec fn view(&self) -> CandidateModel {
        CandidateModel { name: self.name@, signature: self.signature@, explicit: self.explicit }
    }
}

pub open spec fn candidate_views(v: Seq<FunctionCandidate>) -> Seq<CandidateModel> {
    v.map_values(|c: FunctionCandidate| c@)
}

/// `values` without repeats, each kept where it first occurs.
pub open spec fn dedupe_spec(values: Seq<Seq<char>>) -> Seq<Seq<char>>
    decreases values.len(),
{
    if values.len() == 0 {
        seq![]
    } else {
        let init = dedupe_spec(values.drop_last());
        if init.contains(values.last()) {
            init
        } else {
            init.push(values.last())
        }
    }
}

/// `values` without repeats, each kept where it first occurs.
pub fn dedupe(values: Vec<String>) -> (r: Vec<String>)
    ensures
        string_views(r@) == dedupe_spec(string_views(values@)),
{
    let ghost vs = string_views(values@);
    let mut out: Vec<String> = Vec::new();
    for i in 0..values.len()
        invariant
            vs == string_views(values@),
            string_views(out@) == dedupe_spec(vs.take(i as int)),
    {
        let v = &values[i];
        let cs = chars_of(v.as_str());
        let ghost before = string_views(out@);
        proof {
            assert(vs.take(i + 1).drop_last() =~= vs.take(i as int));
            assert(vs.take(i + 1).last() == vs[i as int]);
        }
        if !list_contains(&out, cs.as_slice()) {
            out.push(v.clone());
            assert(string_views(out@) =~= before.push(vs[i as int]));
        }
    }
    assert(vs.take(values@.len() as int) =~= vs);
    out
}

/// Removing repeats keeps every value and leaves no value twice.
pub proof fn law_dedupe(values: Seq<Seq<char>>)
    ensures
        forall|i: int, j: int| 0 <= i < j < dedupe_spec(values).len()
            ==> dedupe_spec(values)[i] != dedupe_spec(values)[j],
        forall|x: Seq<char>| values.contains(x) <==> dedupe_spec(values).contains(x),
    decreases values.len(),
{
    if values.len() > 0 {
        let init = values.drop_last();
        law_dedupe(init);
        let d0 = dedupe_spec(init);
        let last = values.last();
        assert forall|x: Seq<char>| values.contains(x) <==> init.contains(x) || x == last by {
            if values.contains(x) {
                let k = choose|k: int| 0 <= k < values.len() && values[k] == x;
                if k < values.len() - 1 {
                    assert(init[k] == x);
                }
            }
            if init.contains(x) {
                let k = choose|k: int| 0 <= k < init.len() && init[k] == x;
                assert(values[k] == x);
            }
            if x == last {
                assert(values[values.len() - 1] == x);
            }
        }
        if !d0.contains(last) {
            let d = d0.push(last);
            assert forall|x: Seq<char>| d.contains(x) <==> d0.contains(x) || x == last by {
                if d.contains(x) {
                    let k = choose|k: int| 0 <= k < d.len() && d[k] == x;
                    if k < d0.len() {
                        assert(d0[k] == x);
                    }
                }
                if d0.contains(x) {
                    let k = choose|k: int| 0 <= k < d0.len() && d0[k] == x;
                    assert(d[k] == x);
                }
                if x == last {
                    assert(d[d0.len() as int] == x);
                }
            }
            assert forall|i: int, j: int| 0 <= i < j < d.len() implies d[i] != d[j] by {
                if j == d0.len() {
                    assert(d0.contains(d[i]));
                }
            }
        }
    }
}

/// A list without repeats is left as it is.
pub proof fn lemma_dedupe_distinct(values: Seq<Seq<char>>)
    requires
        forall|i: int, j: int| 0 <= i < j < values.len() ==> values[i] != values[j],
    ensures
        dedupe_spec(values) == values,
    decreases values.len(),
{
    if values.len() > 0 {
        let init = values.drop_last();
        lemma_dedupe_distinct(init);
        law_dedupe(init);
        assert(!init.contains(values.last())) by {
            if init.contains(values.last()) {
                let k = choose|k: int| 0 <= k < init.len() && init[k] == values.last();
                assert(values[k] == values[values.len() - 1]);
            }
        }
        assert(init.push(values.last()) =~= values);
    }
}

/// Removing repeats twice is the same as removing them once.
pub proof fn law_dedupe_idempotent(values: Seq<Seq<char>>)
    ensures
        dedupe_spec(dedupe_spec(values)) == dedupe_spec(values),
{
    law_dedupe(values);
    lemma_dedupe_distinct(dedupe_spec(values));
}

/// Each candidate function is either exported or reported in a warning, the
/// exports being exactly the candidates whose signatures are supported.
pub proof fn law_candidates_exported_or_warned(cs: Seq<CandidateModel>, language: Language)
    ensures
        supported_names(cs, language).len() + unsupported_warnings(cs, language).len() == cs.len(),
        forall|k: int| 0 <= k < cs.len() && spec_signature_supported(#[trigger] cs[k].signature, language)
            ==> supported_names(cs, language).contains(cs[k].name),
        forall|k: int| 0 <= k < cs.len() && !spec_signature_supported(#[trigger] cs[k].signature, language)
            ==> unsupported_warnings(cs, language).contains(
                "skipped export "@ + cs[k].name + " because its signature is not C ABI safe"@,
            ),
        forall|x: Seq<char>| #[trigger] supported_names(cs, language).contains(x) ==> exists|k: int|
            0 <= k < cs.len() && cs[k].name == x && spec_signature_supported(cs[k].signature, language),
    decreases cs.len(),
{
    if cs.len() > 0 {
        let init = cs.drop_last();
        law_candidates_exported_or_warned(init, language);
        let last = cs.last();
        let n0 = supported_names(init, language);
        let w0 = unsupported_warnings(init, language);
        let n = supported_names(cs, language);
        let w = unsupported_warnings(cs, language);
        assert forall|k: int| 0 <= k < cs.len() && spec_signature_supported(#[trigger] cs[k].signature, language)
            implies n.contains(cs[k].name) by {
            if k < cs.len() - 1 {
                assert(init[k] == cs[k]);
                let m = choose|m: int| 0 <= m < n0.len() && n0[m] == init[k].name;
                assert(n[m] == cs[k].name);
            } else {
                assert(n[n.len() - 1] == last.name);
            }
        }
        assert forall|k: int| 0 <= k < cs.len() && !spec_signature_supported(#[trigger] cs[k].signature, language)
            implies w.contains("skipped export "@ + cs[k].name + " because its signature is not C ABI safe"@) by {
            let msg = "skipped export "@ + cs[k].name + " because its signature is not C ABI safe"@;
            if k < cs.len() - 1 {
                assert(init[k] == cs[k]);
                let m = choose|m: int| 0 <= m < w0.len() && w0[m] == msg;
                assert(w[m] == msg);
            } else {
                assert(w[w.len() - 1] == msg);
            }
        }
        assert forall|x: Seq<char>| #[trigger] n.contains(x) implies exists|k: int|
            0 <= k < cs.len() && cs[k].name == x && spec_signature_supported(cs[k].signature, language) by {
            let m = choose|m: int| 0 <= m < n.len() && n[m] == x;
            if m < n0.len() {
                assert(n0[m] == x);
                assert(n0.contains(x));
                let k = choose|k: int|
                    0 <= k < init.len() && init[k].name == x && spec_signature_supported(init[k].signature, language);
                assert(cs[k] == init[k]);
            } else {
                assert(cs[cs.len() - 1] == last);
            }
        }
    }
}

/// A target of a configuration file, as far as export discovery reads it:
/// its language, whether one of its sources is the file being read (paths
/// are compared by the caller, which can resolve them), and its exports.
#[derive(Clone, Debug)]
pub struct ConfigTarget {
    pub language: Option<String>,
    pub has_matching_source: bool,
    pub exports: Option<Vec<String>>,
}

pub struct ConfigTargetModel {
    pub language: Option<Seq<char>>,
    pub has_matching_source: bool,
    pub exports: Option<Seq<Seq<char>>>,
}

impl View for ConfigTarget {
    type V = ConfigTargetModel;

    open spec fn view(&self) -> ConfigTargetModel {
        ConfigTargetModel {
            language: match self.language {
                Some(l) => Some(l@),
                None => None,
            },
            has_matching_source: self.has_matching_source,
            exports: match self.exports {
                Some(e) => Some(string_views(e@)),
                None => None,
            },
        }
    }
}

pub open spec fn target_views(ts: Seq<ConfigTarget>) -> Seq<ConfigTargetModel> {
    ts.map_values(|t: ConfigTarget| t@)
}

/// A target applies to the file: its language (if given) names the file's
/// language, and one of its sources is the file.
pub open spec fn target_applies(t: ConfigTargetModel, language: Language) -> bool {
    &&& match t.language {
        Some(l) => to_ascii_lower(l) == spec_language_name(language),
        None => true,
    }
    &&& t.has_matching_source
}

/// The exports of the first target that applies to the file and lists
/// exports, without repeats.
pub open spec fn spec_configured_exports(ts: Seq<ConfigTargetModel>, language: Language) -> Option<Seq<Seq<char>>>
    decreases ts.len(),
{
    if ts.len() == 0 {
        None
    } else if target_applies(ts[0], language) && ts[0].exports is Some {
        Some(dedupe_spec(ts[0].exports->0))
    } else {
        spec_configured_exports(ts.drop_first(), language)
    }
}

/// The exports a configuration file gives for the file, if any of its targets does.
pub fn configured_exports(targets: &Vec<ConfigTarget>, language: Language) -> (r: Option<Vec<String>>)
    ensures
        match r {
            Some(e) => spec_configured_exports(target_views(targets@), language) == Some(string_views(e@)),
            None => spec_configured_exports(target_views(targets@), language) is None,
        },
{
    let ghost tv = target_views(targets@);
    let mut i: usize = 0;
    assert(tv.skip(0) =~= tv);
    while i < targets.len()
        invariant
            tv == target_views(targets@),
            i <= targets@.len(),
            spec_configured_exports(tv, language) == spec_configured_exports(tv.skip(i as int), language),
        decreases targets.len() - i,
    {
        let t = &targets[i];
        let ghost rest = tv.skip(i as int);
        assert(rest[0] == t@);
        let language_ok = match &t.language {
            Some(l) => target_language_matches(Some(l.as_str()), language),
            None => true,
        };
        if language_ok && t.has_matching_source {
            if let Some(e) = &t.exports {
                return Some(dedupe(e.clone()));
            }
        }
        assert(rest.drop_first() =~= tv.skip(i + 1));
        i = i + 1;
    }
    None
}

/// The name that `language_name` gives each language, for configuration files.
pub open spec fn spec_language_name(l: Language) -> Seq<char> {
    crate::detector::spec_cli_name(l)
}

/// The lowercase name of a language, as configuration files write it.
pub fn language_name(language: Language) -> (r: &'static str)
    ensures
        r@ == spec_language_name(language),
{
    language.cli_name()
}

/// Whether a configured target language (if any) names `language`, compared
/// ASCII case-insensitively.
pub fn target_language_matches(target_language: Option<&str>, language: Language) -> (r: bool)
    ensures
        r == match target_language {
            Some(t) => to_ascii_lower(t@) == spec_language_name(language),
            None => true,
        },
{
    match target_language {
        Some(t) => {
            let cs = chars_of(t);
            let lowered = ascii_lowercase(cs.as_slice());
            eq_str(lowered.as_slice(), language_name(language))
        },
        None => true,
    }
}

/// The name that follows the first `keyword` of `line`: after the keyword and
/// any whitespace, up to a `(` or whitespace, which must come.
pub open spec fn spec_name_after_keyword(line: Seq<char>, keyword: Seq<char>) -> Option<Seq<char>> {
    match find_seq(line, keyword) {
        None => None,
        Some(start) => {
            let rest = trim_start(line.skip(start + keyword.len()));
            match name_end(rest) {
                None => None,
                Some(e) => if e == 0 {
                    None
                } else {
                    Some(rest.take(e))
                },
            }
        },
    }
}

/// The name that follows the first `keyword` of `line`.
pub fn name_after_keyword(line: &[char], keyword: &str) -> (r: Option<Vec<char>>)
    ensures
        r matches Some(n) ==> spec_name_after_keyword(line@, keyword@) == Some(n@),
        r is None ==> spec_name_after_keyword(line@, keyword@) is None,
{
    proof {
        lemma_find_seq(line@, keyword@);
    }
    let start = match find_str_in(line, keyword) {
        Some(s) => s,
        None => return None,
    };
    let kc = chars_of(keyword);
    let n = line.len();
    assert(crate::text::occurs_at(line@, keyword@, start as int));
    let after = slice_chars(line, start + kc.len(), n);
    let rest = trim_start_chars(after.as_slice());
    match name_end_in(rest.as_slice()) {
        None => None,
        Some(e) => {
            proof {
                lemma_name_end(rest@);
            }
            if e == 0 {
                None
            } else {
                Some(slice_chars(rest.as_slice(), 0, e))
            }
        },
    }
}

/// Reading Rust lines: the functions found so far, and whether an attribute
/// naming `ffi` waits for the next function.
pub open spec fn rust_scan(ls: Seq<Seq<char>>) -> (Seq<CandidateModel>, bool)
    decreases ls.len(),
{
    if ls.len() == 0 {
        (seq![], false)
    } else {
        let (found, pending) = rust_scan(ls.drop_last());
        let t = trim(ls.last());
        if starts_with(t, "#["@) && contains_seq(t, "ffi"@) {
            (found, true)
        } else if starts_with(t, "pub fn "@) || starts_with(t, "fn "@) {
            match spec_name_after_keyword(t, "fn"@) {
                Some(n) => (found.push(CandidateModel { name: n, signature: t, explicit: pending }), false),
                None => (found, false),
            }
        } else if !starts_with(t, "#["@) && t.len() > 0 {
            (found, false)
        } else {
            (found, pending)
        }
    }
}

/// The line itself when it begins a Rust function.
pub open spec fn spec_rust_signature(line: Seq<char>) -> Option<Seq<char>> {
    if starts_with(line, "pub fn "@) || starts_with(line, "fn "@) {
        Some(line)
    } else {
        None
    }
}

/// The line itself when it begins a Rust function (`pub fn ` or `fn `).
pub fn rust_signature(line: &[char]) -> (r: bool)
    ensures
        r == spec_rust_signature(line@) is Some,
{
    starts_with_str(line, "pub fn ") || starts_with_str(line, "fn ")
}

/// The Rust functions of a source file; those after an attribute naming `ffi` are explicit.
pub fn rust_candidates(content: &[char]) -> (r: Vec<FunctionCandidate>)
    ensures
        candidate_views(r@) == rust_scan(lines(content@)).0,
{
    let ls = lines_of(content);
    let ghost v = views(ls@);
    let mut out: Vec<FunctionCandidate> = Vec::new();
    let mut pending = false;
    for i in 0..ls.len()
        invariant
            v == views(ls@),
            (candidate_views(out@), pending) == rust_scan(v.take(i as int)),
    {
        let ghost before = candidate_views(out@);
        proof {
            assert(v.take(i + 1).drop_last() =~= v.take(i as int));
            assert(v.take(i + 1).last() == ls@[i as int]@);
        }
        let t = trim_chars(ls[i].as_slice());
        if starts_with_str(t.as_slice(), "#[") && contains_str(t.as_slice(), "ffi") {
            pending = true;
        } else if rust_signature(t.as_slice()) {
            match name_after_keyword(t.as_slice(), "fn") {
                Some(n) => {
                    let c = FunctionCandidate {
                        name: string_of(n.as_slice()),
                        signature: string_of(t.as_slice()),
                        explicit: pending,
                    };
                    let ghost cm = c@;
                    out.push(c);
                    assert(candidate_views(out@) =~= before.push(cm));
                },
                None => {},
            }
            pending = false;
        } else if !starts_with_str(t.as_slice(), "#[") && t.len() > 0 {
            pending = false;
        }
    }
    assert(v.take(ls@.len() as int) =~= v);
    out
}

/// A Zig function: `pub export fn` is explicit; `pub fn` and `fn` are not.
pub open spec fn zig_candidate(line: Seq<char>) -> Option<CandidateModel> {
    let t = trim(line);
    let explicit = starts_with(t, "pub export fn "@);
    if explicit || starts_with(t, "pub fn "@) || starts_with(t, "fn "@) {
        match spec_name_after_keyword(t, "fn"@) {
            Some(n) => Some(CandidateModel { name: n, signature: t, explicit }),
            None => None,
        }
    } else {
        None
    }
}

/// The first position in `s` of `(`, `*` or whitespace, or its length.
pub open spec fn proc_name_end(s: Seq<char>) -> int
    decreases s.len(),
{
    if s.len() == 0 || s[0] == '(' || s[0] == '*' || is_ws(s[0]) {
        0
    } else {
        1 + proc_name_end(s.drop_first())
    }
}

pub proof fn lemma_proc_name_end(s: Seq<char>)
    ensures
        0 <= proc_name_end(s) <= s.len(),
    decreases s.len(),
{
    if !(s.len() == 0 || s[0] == '(' || s[0] == '*' || is_ws(s[0])) {
        lemma_proc_name_end(s.drop_first());
    }
}

fn proc_name_end_in(cs: &[char]) -> (r: usize)
    ensures
        r == proc_name_end(cs@),
{
    let n = cs.len();
    let mut i: usize = 0;
    assert(cs@.skip(0) == cs@);
    while i < n && !(cs[i] == '(' || cs[i] == '*' || crate::text::is_whitespace(cs[i]))
        invariant
            i <= n == cs@.len(),
            proc_name_end(cs@) == i + proc_name_end(cs@.skip(i as int)),
        decreases n - i,
    {
        assert(cs@.skip(i as int).drop_first() == cs@.skip(i + 1));
        i = i + 1;
    }
    i
}

/// A Nim procedure: explicit when it carries `exportc` or an export star.
pub open spec fn nim_candidate(line: Seq<char>) -> Option<CandidateModel> {
    let t = trim(line);
    if !starts_with(t, "proc "@) {
        None
    } else {
        let rest = trim_start(strip_all_prefix(t, "proc "@));
        let name = rest.take(proc_name_end(rest));
        if name.len() == 0 {
            None
        } else {
            Some(
                CandidateModel {
                    name,
                    signature: t,
                    explicit: contains_seq(t, "exportc"@) || rest.contains('*'),
                },
            )
        }
    }
}

/// The last word before the last `(` of a line, unless it is a control keyword.
pub open spec fn spec_d_name(line: Seq<char>) -> Option<Seq<char>> {
    match rfind_char(line, '(') {
        None => None,
        Some(i) => {
            let w = words(trim(line.take(i)));
            if w.len() == 0 {
                None
            } else {
                let n = w.last();
                if n == "if"@ || n == "for"@ || n == "while"@ || n == "switch"@ {
                    None
                } else {
                    Some(n)
                }
            }
        },
    }
}

/// The C function name of a line: as for D, without leading `*`.
pub open spec fn spec_c_name(line: Seq<char>) -> Option<Seq<char>> {
    match spec_d_name(line) {
        Some(n) => Some(strip_all_prefix(n, "*"@)),
        None => None,
    }
}

/// A D function: explicit when declared `extern(C)` and `export`.
pub open spec fn d_candidate(line: Seq<char>) -> Option<CandidateModel> {
    let t = trim(line);
    if !t.contains('(') || starts_with(t, "@"@) {
        None
    } else {
        match spec_d_name(t) {
            Some(n) => Some(
                CandidateModel {
                    name: n,
                    signature: t,
                    explicit: contains_seq(t, "extern(C)"@) && contains_seq(t, "export"@),
                },
            ),
            None => None,
        }
    }
}

/// A C or C++ function: declarations (`;`) are explicit, definitions (`{`) are not.
pub open spec fn c_candidate(line: Seq<char>) -> Option<CandidateModel> {
    let t = trim(line);
    if starts_with(t, "static "@) || starts_with(t, "#"@) || !t.contains('(') || !t.contains(')') {
        None
    } else {
        let explicit = ends_with(t, seq![';']);
        if !explicit && !ends_with(t, seq!['{']) {
            None
        } else {
            match spec_c_name(t) {
                Some(n) => Some(CandidateModel { name: n, signature: t, explicit }),
                None => None,
            }
        }
    }
}

/// The function a line declares, for languages read line by line.
pub open spec fn line_candidate(language: Language, line: Seq<char>) -> Option<CandidateModel> {
    match language {
        Language::Zig => zig_candidate(line),
        Language::Nim => nim_candidate(line),
        Language::D => d_candidate(line),
        Language::C | Language::Cpp => c_candidate(line),
        _ => None,
    }
}

/// The functions declared by the lines, in order.
pub open spec fn candidates_of(language: Language, ls: Seq<Seq<char>>) -> Seq<CandidateModel>
    decreases ls.len(),
{
    if ls.len() == 0 {
        seq![]
    } else {
        let init = candidates_of(language, ls.drop_last());
        match line_candidate(language, ls.last()) {
            Some(c) => init.push(c),
            None => init,
        }
    }
}

/// The functions found in a source file of the given language.
pub open spec fn spec_language_candidates(language: Language, content: Seq<char>) -> Seq<CandidateModel> {
    if language == Language::Rust {
        rust_scan(lines(content)).0
    } else {
        candidates_of(language, lines(content))
    }
}

fn candidate(name: &[char], signature: &[char], explicit: bool) -> (r: FunctionCandidate)
    ensures
        r@ == (CandidateModel { name: name@, signature: signature@, explicit }),
{
    FunctionCandidate { name: string_of(name), signature: string_of(signature), explicit }
}

fn zig_candidate_of(line: &[char]) -> (r: Option<FunctionCandidate>)
    ensures
        r matches Some(c) ==> zig_candidate(line@) == Some(c@),
        r is None ==> zig_candidate(line@) is None,
{
    let t = trim_chars(line);
    let explicit = starts_with_str(t.as_slice(), "pub export fn ");
    if explicit || starts_with_str(t.as_slice(), "pub fn ") || starts_with_str(t.as_slice(), "fn ") {
        match name_after_keyword(t.as_slice(), "fn") {
            Some(n) => Some(candidate(n.as_slice(), t.as_slice(), explicit)),
            None => None,
        }
    } else {
        None
    }
}

fn nim_candidate_of(line: &[char]) -> (r: Option<FunctionCandidate>)
    ensures
        r matches Some(c) ==> nim_candidate(line@) == Some(c@),
        r is None ==> nim_candidate(line@) is None,
{
    let t = trim_chars(line);
    if !starts_with_str(t.as_slice(), "proc ") {
        return None;
    }
    let stripped = strip_all_prefix_of(t.as_slice(), "proc ");
    let rest = trim_start_chars(stripped.as_slice());
    let e = proc_name_end_in(rest.as_slice());
    proof {
        lemma_proc_name_end(rest@);
    }
    let name = slice_chars(rest.as_slice(), 0, e);
    if name.len() == 0 {
        None
    } else {
        let explicit = contains_str(t.as_slice(), "exportc") || contains_char(rest.as_slice(), '*');
        Some(candidate(name.as_slice(), t.as_slice(), explicit))
    }
}

/// The last word before the last `(` of a line, unless it is a control keyword.
pub fn d_name(line: &[char]) -> (r: Option<Vec<char>>)
    ensures
        r matches Some(n) ==> spec_d_name(line@) == Some(n@),
        r is None ==> spec_d_name(line@) is None,
{
    proof {
        lemma_rfind_char(line@, '(');
    }
    match rfind_char_in(line, '(') {
        None => None,
        Some(i) => {
            let before = slice_chars(line, 0, i);
            let before = trim_chars(before.as_slice());
            let w = words_of(before.as_slice());
            if w.len() == 0 {
                None
            } else {
                let n = slice_chars(w[w.len() - 1].as_slice(), 0, w[w.len() - 1].len());
                assert(views(w@).last() == w@[w@.len() - 1]@);
                assert(n@ =~= views(w@).last());
                let ns = n.as_slice();
                if eq_str(ns, "if") || eq_str(ns, "for") || eq_str(ns, "while") || eq_str(ns, "switch") {
                    None
                } else {
                    Some(n)
                }
            }
        },
    }
}

/// The C function name of a line: as for D, without leading `*`.
pub fn c_name(line: &[char]) -> (r: Option<Vec<char>>)
    ensures
        r matches Some(n) ==> spec_c_name(line@) == Some(n@),
        r is None ==> spec_c_name(line@) is None,
{
    match d_name(line) {
        Some(n) => Some(strip_all_prefix_of(n.as_slice(), "*")),
        None => None,
    }
}

fn d_candidate_of(line: &[char]) -> (r: Option<FunctionCandidate>)
    ensures
        r matches Some(c) ==> d_candidate(line@) == Some(c@),
        r is None ==> d_candidate(line@) is None,
{
    let t = trim_chars(line);
    if !contains_char(t.as_slice(), '(') || starts_with_str(t.as_slice(), "@") {
        return None;
    }
    match d_name(t.as_slice()) {
        Some(n) => {
            let explicit = contains_str(t.as_slice(), "extern(C)") && contains_str(t.as_slice(), "export");
            Some(candidate(n.as_slice(), t.as_slice(), explicit))
        },
        None => None,
    }
}

fn c_candidate_of(line: &[char]) -> (r: Option<FunctionCandidate>)
    ensures
        r matches Some(c) ==> c_candidate(line@) == Some(c@),
        r is None ==> c_candidate(line@) is None,
{
    let t = trim_chars(line);
    let ts = t.as_slice();
    if starts_with_str(ts, "static ") || starts_with_str(ts, "#") || !contains_char(ts, '(') || !contains_char(ts, ')') {
        return None;
    }
    let explicit = ends_with_char(ts, ';');
    if !explicit && !ends_with_char(ts, '{') {
        return None;
    }
    match c_name(ts) {
        Some(n) => Some(candidate(n.as_slice(), ts, explicit)),
        None => None,
    }
}

fn line_candidate_of(language: Language, line: &[char]) -> (r: Option<FunctionCandidate>)
    ensures
        r matches Some(c) ==> line_candidate(language, line@) == Some(c@),
        r is None ==> line_candidate(language, line@) is None,
{
    match language {
        Language::Zig => zig_candidate_of(line),
        Language::Nim => nim_candidate_of(line),
        Language::D => d_candidate_of(line),
        Language::C | Language::Cpp => c_candidate_of(line),
        _ => None,
    }
}

/// The functions found in a source file of the given language.
pub fn language_candidates(language: Language, content: &[char]) -> (r: Vec<FunctionCandidate>)
    ensures
        candidate_views(r@) == spec_language_candidates(language, content@),
{
    if language == Language::Rust {
        return rust_candidates(content);
    }
    let ls = lines_of(content);
    let ghost v = views(ls@);
    let mut out: Vec<FunctionCandidate> = Vec::new();
    for i in 0..ls.len()
        invariant
            v == views(ls@),
            candidate_views(out@) == candidates_of(language, v.take(i as int)),
    {
        let ghost before = candidate_views(out@);
        proof {
            assert(v.take(i + 1).drop_last() =~= v.take(i as int));
            assert(v.take(i + 1).last() == ls@[i as int]@);
        }
        match line_candidate_of(language, ls[i].as_slice()) {
            Some(c) => {
                let ghost cm = c@;
                out.push(c);
                assert(candidate_views(out@) =~= before.push(cm));
            },
            None => {},
        }
    }
    assert(v.take(ls@.len() as int) =~= v);
    out
}

/// A Rust type that crosses the C ABI: a raw pointer, or one of the listed scalars.
pub open spec fn spec_rust_type_supported(ty: Seq<char>) -> bool {
    ||| starts_with(ty, "*const "@)
    ||| starts_with(ty, "*mut "@)
    ||| ty == "()"@
    ||| ty == "bool"@
    ||| ty == "i8"@
    ||| ty == "u8"@
    ||| ty == "i16"@
    ||| ty == "u16"@
    ||| ty == "i32"@
    ||| ty == "u32"@
    ||| ty == "i64"@
    ||| ty == "u64"@
    ||| ty == "isize"@
    ||| ty == "usize"@
    ||| ty == "f32"@
    ||| ty == "f64"@
    ||| ty == "c_int"@
    ||| ty == "c_uint"@
    ||| ty == "c_char"@
    ||| ty == "c_void"@
}

/// Rust's primitive integers cross the C ABI: `iN` and `uN` for every width
/// of a fixed-width C integer, and so every type that a fixed-width C integer
/// is spelled as in Rust; so do `isize`, `usize`, `f32`, `f64` and `bool`.
pub proof fn law_rust_primitives_cross_abi(signed: bool, bits: nat)
    requires
        is_fixed_width(bits),
    ensures
        spec_rust_type_supported(rust_fixed_int_name(signed, bits)),
        spec_rust_type_supported(rust_type(c_fixed_int_name(signed, bits))),
        spec_rust_type_supported("isize"@),
        spec_rust_type_supported("usize"@),
        spec_rust_type_supported("f32"@),
        spec_rust_type_supported("f64"@),
        spec_rust_type_supported("bool"@),
{
    lemma_fixed_int_scalar(signed, bits);
    law_fixed_width_integers_keep_width(signed, bits);
    reveal_strlit("i8");
    reveal_strlit("i16");
    reveal_strlit("i32");
    reveal_strlit("i64");
    reveal_strlit("u8");
    reveal_strlit("u16");
    reveal_strlit("u32");
    reveal_strlit("u64");
    reveal_strlit("i");
    reveal_strlit("u");
    crate::c_header::lemma_decimal_widths(bits);
    let r = rust_fixed_int_name(signed, bits);
    if signed {
        if bits == 8 {
            assert(r =~= "i8"@);
        } else if bits == 16 {
            assert(r =~= "i16"@);
        } else if bits == 32 {
            assert(r =~= "i32"@);
        } else {
            assert(r =~= "i64"@);
        }
    } else {
        if bits == 8 {
            assert(r =~= "u8"@);
        } else if bits == 16 {
            assert(r =~= "u16"@);
        } else if bits == 32 {
            assert(r =~= "u32"@);
        } else {
            assert(r =~= "u64"@);
        }
    }
}

/// The Rust spellings of C's `int`, `unsigned int` and `char` cross the C
/// ABI, as do the unit type and every raw pointer.
pub proof fn law_c_raw_types_cross_abi(x: Seq<char>)
    ensures
        spec_rust_type_supported(rust_type("int"@)),
        spec_rust_type_supported(rust_type("unsigned int"@)),
        spec_rust_type_supported(rust_type("char"@)),
        spec_rust_type_supported("()"@),
        spec_rust_type_supported("*mut "@ + x),
        spec_rust_type_supported("*const "@ + x),
{
    law_plain_integers_keep_c_meaning(0, false);
    law_plain_integers_keep_c_meaning(0, true);
    law_plain_integers_keep_c_meaning(3, false);
    reveal_strlit("int");
    reveal_strlit("char");
    reveal_strlit("unsigned ");
    reveal_strlit("unsigned int");
    reveal_strlit("c_");
    reveal_strlit("c_u");
    reveal_strlit("c_int");
    reveal_strlit("c_uint");
    reveal_strlit("c_char");
    assert(seq![] + "int"@ =~= "int"@);
    assert(seq![] + "char"@ =~= "char"@);
    assert("unsigned "@ + "int"@ =~= "unsigned int"@);
    assert("c_"@ + "int"@ =~= "c_int"@);
    assert("c_u"@ + "int"@ =~= "c_uint"@);
    assert("c_"@ + "char"@ =~= "c_char"@);
    reveal_strlit("*mut ");
    reveal_strlit("*const ");
    assert(("*mut "@ + x).take(5) =~= "*mut "@);
    assert(("*const "@ + x).take(7) =~= "*const "@);
}

/// Whether a Rust type crosses the C ABI.
pub fn rust_type_supported(ty: &[char]) -> (r: bool)
    ensures
        r == spec_rust_type_supported(ty@),
{
    starts_with_str(ty, "*const ") || starts_with_str(ty, "*mut ") || eq_str(ty, "()") || eq_str(ty, "bool") || eq_str(ty, "i8") || eq_str(ty, "u8") || eq_str(ty, "i16") || eq_str(ty, "u16") || eq_str(ty, "i32") || eq_str(ty, "u32") || eq_str(ty, "i64") || eq_str(ty, "u64") || eq_str(ty, "isize") || eq_str(ty, "usize") || eq_str(ty, "f32") || eq_str(ty, "f64") || eq_str(ty, "c_int") || eq_str(ty, "c_uint") || eq_str(ty, "c_char") || eq_str(ty, "c_void")
}

/// One Rust parameter piece: empty once trimmed, or `NAME: TYPE` with a supported type.
pub open spec fn param_supported(piece: Seq<char>) -> bool {
    let p = trim(piece);
    p.len() == 0 || match rfind_char(p, ':') {
        None => false,
        Some(i) => spec_rust_type_supported(trim(p.skip(i + 1))),
    }
}

/// The return type written after `->`: up to any `{`, trimmed, without trailing `;`.
pub open spec fn return_type_text(ret: Seq<char>) -> Seq<char> {
    let head = match find_char(ret, '{') {
        Some(b) => ret.take(b),
        None => ret,
    };
    trim_end_char(trim(head), ';')
}

/// Every parameter piece is supported.
pub open spec fn params_supported(pieces: Seq<Seq<char>>) -> bool {
    forall|k: int| 0 <= k < pieces.len() ==> param_supported(#[trigger] pieces[k])
}

/// The return type after the first `->`, if any, is supported.
pub open spec fn return_supported(sig: Seq<char>) -> bool {
    match find_seq(sig, "->"@) {
        None => true,
        Some(k) => spec_rust_type_supported(return_type_text(sig.skip(k + "->"@.len()))),
    }
}

/// Whether a Rust function line has only C-ABI-safe parameter and return types.
pub open spec fn spec_rust_signature_supported(sig: Seq<char>) -> bool {
    match find_char(sig, '(') {
        None => false,
        Some(ps) => match find_char(sig.skip(ps), ')') {
            None => false,
            Some(rel) => {
                let params = sig.subrange(ps + 1, ps + rel);
                params_supported(split_char(params, ',')) && return_supported(sig)
            },
        },
    }
}

fn param_supported_of(piece: &[char]) -> (r: bool)
    ensures
        r == param_supported(piece@),
{
    let p = trim_chars(piece);
    if p.len() == 0 {
        return true;
    }
    proof {
        lemma_rfind_char(p@, ':');
    }
    let n = p.len();
    match rfind_char_in(p.as_slice(), ':') {
        None => false,
        Some(i) => {
            let ty = slice_chars(p.as_slice(), i + 1, n);
            let ty = trim_chars(ty.as_slice());
            rust_type_supported(ty.as_slice())
        },
    }
}

/// Whether a Rust function line has only C-ABI-safe parameter and return types.
pub fn rust_signature_supported(sig: &[char]) -> (r: bool)
    ensures
        r == spec_rust_signature_supported(sig@),
{
    let n = sig.len();
    proof {
        lemma_find_char(sig@, '(');
    }
    let ps = match find_char_in(sig, '(') {
        Some(p) => p,
        None => return false,
    };
    let tail = slice_chars(sig, ps, n);
    assert(tail@ =~= sig@.skip(ps as int));
    proof {
        lemma_find_char(tail@, ')');
    }
    let rel = match find_char_in(tail.as_slice(), ')') {
        Some(r) => r,
        None => return false,
    };
    assert(tail@[0] == '(');
    let params = slice_chars(sig, ps + 1, ps + rel);
    let pieces = split_char_of(params.as_slice(), ',');
    let ghost pv = views(pieces@);
    let mut k: usize = 0;
    while k < pieces.len()
        invariant
            k <= pieces@.len(),
            pv == views(pieces@),
            find_char(sig@, '(') == Some(ps as int),
            find_char(sig@.skip(ps as int), ')') == Some(rel as int),
            pv == split_char(sig@.subrange(ps + 1, ps + rel), ','),
            forall|m: int| 0 <= m < k ==> param_supported(#[trigger] pv[m]),
        decreases pieces.len() - k,
    {
        assert(pv[k as int] == pieces@[k as int]@);
        if !param_supported_of(pieces[k].as_slice()) {
            assert(!param_supported(pv[k as int]));
            assert(!params_supported(pv));
            return false;
        }
        k = k + 1;
    }
    proof {
        lemma_find_seq(sig@, "->"@);
    }
    match find_str_in(sig, "->") {
        None => true,
        Some(k) => {
            let arrow = chars_of("->");
            assert(crate::text::occurs_at(sig@, "->"@, k as int));
            let ret = slice_chars(sig, k + arrow.len(), n);
            proof {
                lemma_find_char(ret@, '{');
            }
            let head = match find_char_in(ret.as_slice(), '{') {
                Some(b) => slice_chars(ret.as_slice(), 0, b),
                None => ret,
            };
            let head = trim_chars(head.as_slice());
            let ty = trim_end_char_of(head.as_slice(), ';');
            rust_type_supported(ty.as_slice())
        },
    }
}

/// Whether a signature can be exported: Rust signatures are checked, others pass.
pub open spec fn spec_signature_supported(sig: Seq<char>, language: Language) -> bool {
    if language == Language::Rust {
        spec_rust_signature_supported(sig)
    } else {
        true
    }
}

/// Whether a signature can be exported: Rust signatures are checked, others pass.
pub fn signature_supported(sig: &str, language: Language) -> (r: bool)
    ensures
        r == spec_signature_supported(sig@, language),
{
    if language == Language::Rust {
        let cs = chars_of(sig);
        rust_signature_supported(cs.as_slice())
    } else {
        true
    }
}

/// The names of the candidates whose signatures can be exported, in order.
pub open spec fn supported_names(cs: Seq<CandidateModel>, language: Language) -> Seq<Seq<char>>
    decreases cs.len(),
{
    if cs.len() == 0 {
        seq![]
    } else {
        let init = supported_names(cs.drop_last(), language);
        if spec_signature_supported(cs.last().signature, language) {
            init.push(cs.last().name)
        } else {
            init
        }
    }
}

/// A warning for each candidate whose signature cannot be exported.
pub open spec fn unsupported_warnings(cs: Seq<CandidateModel>, language: Language) -> Seq<Seq<char>>
    decreases cs.len(),
{
    if cs.len() == 0 {
        seq![]
    } else {
        let init = unsupported_warnings(cs.drop_last(), language);
        if spec_signature_supported(cs.last().signature, language) {
            init
        } else {
            init.push("skipped export "@ + cs.last().name + " because its signature is not C ABI safe"@)
        }
    }
}

/// The exportable names (without repeats) and a warning for each unexportable one.
pub fn supported_exports(candidates: &Vec<FunctionCandidate>, language: Language) -> (r: (Vec<String>, Vec<String>))
    ensures
        string_views(r.0@) == dedupe_spec(supported_names(candidate_views(candidates@), language)),
        string_views(r.1@) == unsupported_warnings(candidate_views(candidates@), language),
{
    let ghost cv = candidate_views(candidates@);
    let mut exports: Vec<String> = Vec::new();
    let mut warnings: Vec<String> = Vec::new();
    for i in 0..candidates.len()
        invariant
            cv == candidate_views(candidates@),
            string_views(exports@) == supported_names(cv.take(i as int), language),
            string_views(warnings@) == unsupported_warnings(cv.take(i as int), language),
    {
        let c = &candidates[i];
        let ghost eb = string_views(exports@);
        let ghost wb = string_views(warnings@);
        proof {
            assert(cv.take(i + 1).drop_last() =~= cv.take(i as int));
            assert(cv.take(i + 1).last() == c@);
        }
        if signature_supported(c.signature.as_str(), language) {
            exports.push(c.name.clone());
            assert(string_views(exports@) =~= eb.push(c.name@));
        } else {
            let mut w = string_from("skipped export ");
            push_str(&mut w, c.name.as_str());
            push_str(&mut w, " because its signature is not C ABI safe");
            warnings.push(w);
            assert(string_views(warnings@) =~= wb.push(w@));
        }
    }
    assert(cv.take(candidates@.len() as int) =~= cv);
    (dedupe(exports), warnings)
}

/// The candidates that carry an explicit export marker, in order.
pub open spec fn explicit_candidates(cs: Seq<CandidateModel>) -> Seq<CandidateModel>
    decreases cs.len(),
{
    if cs.len() == 0 {
        seq![]
    } else {
        let init = explicit_candidates(cs.drop_last());
        if cs.last().explicit {
            init.push(cs.last())
        } else {
            init
        }
    }
}

/// The exports that a source text gives by itself: its explicitly marked
/// functions when it has any, else all its functions.
pub open spec fn content_discovery(language: Language, content: Seq<char>) -> (Seq<Seq<char>>, ExportSource, Seq<Seq<char>>) {
    let all = spec_language_candidates(language, content);
    let marked = explicit_candidates(all);
    if marked.len() > 0 {
        (dedupe_spec(supported_names(marked, language)), ExportSource::ExplicitMarkers, unsupported_warnings(marked, language))
    } else {
        (dedupe_spec(supported_names(all, language)), ExportSource::AllFunctions, unsupported_warnings(all, language))
    }
}

pub open spec fn discovery_view(d: ExportDiscovery) -> (Seq<Seq<char>>, ExportSource, Seq<Seq<char>>) {
    (string_views(d.exports@), d.source, string_views(d.warnings@))
}

/// The exports that a source text gives by itself.
pub fn discover_from_content(language: Language, content: &str) -> (r: ExportDiscovery)
    ensures
        discovery_view(r) == content_discovery(language, content@),
{
    let cs = chars_of(content);
    let all = language_candidates(language, cs.as_slice());
    let ghost av = candidate_views(all@);
    let mut marked: Vec<FunctionCandidate> = Vec::new();
    for i in 0..all.len()
        invariant
            av == candidate_views(all@),
            candidate_views(marked@) == explicit_candidates(av.take(i as int)),
    {
        let ghost before = candidate_views(marked@);
        proof {
            assert(av.take(i + 1).drop_last() =~= av.take(i as int));
            assert(av.take(i + 1).last() == all@[i as int]@);
        }
        if all[i].explicit {
            let c = FunctionCandidate {
                name: all[i].name.clone(),
                signature: all[i].signature.clone(),
                explicit: all[i].explicit,
            };
            let ghost cm = c@;
            marked.push(c);
            assert(candidate_views(marked@) =~= before.push(cm));
        }
    }
    assert(av.take(all@.len() as int) =~= av);
    if marked.len() > 0 {
        let (exports, warnings) = supported_exports(&marked, language);
        ExportDiscovery { exports, source: ExportSource::ExplicitMarkers, warnings }
    } else {
        let (exports, warnings) = supported_exports(&all, language);
        ExportDiscovery { exports, source: ExportSource::AllFunctions, warnings }
    }
}

/// How discovery chooses: names the caller requested come first, then names
/// from a configuration target, then what the source gives by itself.
pub open spec fn chosen_discovery(
    requested: Seq<Seq<char>>,
    configured: Option<Seq<Seq<char>>>,
    language: Language,
    content: Seq<char>,
) -> (Seq<Seq<char>>, ExportSource, Seq<Seq<char>>) {
    if requested.len() > 0 {
        (dedupe_spec(requested), ExportSource::Requested, seq![])
    } else {
        match configured {
            Some(c) => (dedupe_spec(c), ExportSource::Config, seq![]),
            None => content_discovery(language, content),
        }
    }
}

/// Chooses the exports of a source file: requested names, else configured
/// names, else what the source text gives (which is read only then).
pub fn choose_exports(
    requested: &Vec<String>,
    configured: Option<Vec<String>>,
    language: Language,
    content: Option<&str>,
) -> (r: ExportDiscovery)
    requires
        requested@.len() == 0 && configured is None ==> content is Some,
    ensures
        discovery_view(r) == chosen_discovery(
            string_views(requested@),
            match configured {
                Some(c) => Some(string_views(c@)),
                None => None,
            },
            language,
            match content {
                Some(t) => t@,
                None => Seq::empty(),
            },
        ),
{
    if requested.len() > 0 {
        let exports = dedupe(requested.clone());
        let warnings: Vec<String> = Vec::new();
        assert(string_views(warnings@) =~= Seq::<Seq<char>>::empty());
        return ExportDiscovery { exports, source: ExportSource::Requested, warnings };
    }
    match configured {
        Some(c) => {
            let exports = dedupe(c);
            let warnings: Vec<String> = Vec::new();
            assert(string_views(warnings@) =~= Seq::<Seq<char>>::empty());
            ExportDiscovery { exports, source: ExportSource::Config, warnings }
        },
        None => match content {
            Some(t) => discover_from_content(language, t),
            None => {
                assert(false);
                ExportDiscovery { exports: Vec::new(), source: ExportSource::AllFunctions, warnings: Vec::new() }
            },
        },
    }
}

/// Names passed by the caller win over a configuration target and over the
/// source text; a configuration target wins over the source text; the source
/// text gives its explicitly marked functions when it has any, else all its
/// functions.
pub proof fn law_export_precedence(
    requested: Seq<Seq<char>>,
    configured: Option<Seq<Seq<char>>>,
    language: Language,
    content: Seq<char>,
)
    ensures
        requested.len() > 0 ==> chosen_discovery(requested, configured, language, content)
            == (dedupe_spec(requested), ExportSource::Requested, Seq::<Seq<char>>::empty()),
        requested.len() == 0 && configured is Some ==> chosen_discovery(requested, configured, language, content)
            == (dedupe_spec(configured->0), ExportSource::Config, Seq::<Seq<char>>::empty()),
        requested.len() == 0 && configured is None ==> chosen_discovery(requested, configured, language, content)
            == content_discovery(language, content),
        content_discovery(language, content).1 == (if explicit_candidates(spec_language_candidates(language, content)).len() > 0 {
            ExportSource::ExplicitMarkers
        } else {
            ExportSource::AllFunctions
        }),
{
}

} // verus!
