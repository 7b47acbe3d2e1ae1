//! A line-oriented reader for the declarations of a C header.

use vstd::prelude::*;

use crate::text::{
    chars_of, ends_with, ends_with_char, eq_str, find_char, find_char_in, lemma_find_char,
    lemma_rfind_char, rfind_char, rfind_char_in, slice_chars, split_char, split_char_of,
    starts_with, starts_with_str, string_from, string_of, strip_prefix_str, strip_suffix_char,
    trim, trim_chars, trim_end_char, trim_end_char_of, views, words, words_of, join, join_chars,
    contains_seq, contains_str, contains_char, lines, lines_of, push_str, lemma_trim_len,
    lemma_trim_contains, lemma_trim_split, lemma_trim_frame, is_ws, decimal,
};

verus! {

broadcast use vstd::string::group_string_axioms;

/// A `typedef` read from a header: the new name and the type it stands for.
#[derive(Clone, Debug)]
pub struct TypedefDef {
    pub name: String,
    pub target: String,
}

/// A `typedef struct { ... } Name;` read from a header; fields are (type, name).
#[derive(Clone, Debug)]
pub struct StructDef {
    pub name: String,
    pub fields: Vec<(String, String)>,
}

/// A `typedef enum { ... } Name;` read from a header; variants are (name, value).
#[derive(Clone, Debug)]
pub struct EnumDef {
    pub name: String,
    pub variants: Vec<(String, Option<String>)>,
}

/// A function prototype read from a header; parameters are (type, name).
#[derive(Clone, Debug)]
pub struct FunctionDef {
    pub name: String,
    pub return_type: String,
    pub params: Vec<(String, String)>,
}

/// Everything read from a header, in the order of appearance.
#[derive(Clone, Debug)]
pub struct ParsedHeader {
    pub typedefs: Vec<TypedefDef>,
    pub structs: Vec<StructDef>,
    pub enums: Vec<EnumDef>,
    pub functions: Vec<FunctionDef>,
}

pub struct TypedefModel {
    pub name: Seq<char>,
    pub target: Seq<char>,
}

pub struct StructModel {
    pub name: Seq<char>,
    pub fields: Seq<(Seq<char>, Seq<char>)>,
}

pub struct EnumModel {
    pub name: Seq<char>,
    pub variants: Seq<(Seq<char>, Option<Seq<char>>)>,
}

pub struct FunctionModel {
    pub name: Seq<char>,
    pub return_type: Seq<char>,
    pub params: Seq<(Seq<char>, Seq<char>)>,
}

#[verifier::ext_equal]
pub struct HeaderModel {
    pub typedefs: Seq<TypedefModel>,
    pub structs: Seq<StructModel>,
    pub enums: Seq<EnumModel>,
    pub functions: Seq<FunctionModel>,
}

pub open spec fn pair_views(v: Seq<(String, String)>) -> Seq<(Seq<char>, Seq<char>)> {
    v.map_values(|p: (String, String)| (p.0@, p.1@))
}

pub open spec fn opt_view(o: Option<String>) -> Option<Seq<char>> {
    match o {
        Some(s) => Some(s@),
        None => None,
    }
}

pub open spec fn variant_views(v: Seq<(String, Option<String>)>) -> Seq<(Seq<char>, Option<Seq<char>>)> {
    v.map_values(|p: (String, Option<String>)| (p.0@, opt_view(p.1)))
}

impl View for TypedefDef {
    type V = TypedefModel;

    open spec fn view(&self) -> TypedefModel {
        TypedefModel { name: self.name@, target: self.target@ }
    }
}

impl View for StructDef {
    type V = StructModel;

    open spec fn view(&self) -> StructModel {
        StructModel { name: self.name@, fields: pair_views(self.fields@) }
    }
}

impl View for EnumDef {
    type V = EnumModel;

    open spec fn view(&self) -> EnumModel {
        EnumModel { name: self.name@, variants: variant_views(self.variants@) }
    }
}

impl View for FunctionDef {
    type V = FunctionModel;

    open spec fn view(&self) -> FunctionModel {
        FunctionModel {
            name: self.name@,
            return_type: self.return_type@,
            params: pair_views(self.params@),
        }
    }
}

impl View for ParsedHeader {
    type V = HeaderModel;

    open spec fn view(&self) -> HeaderModel {
        HeaderModel {
            typedefs: self.typedefs@.map_values(|t: TypedefDef| t@),
            structs: self.structs@.map_values(|t: StructDef| t@),
            enums: self.enums@.map_values(|t: EnumDef| t@),
            functions: self.functions@.map_values(|t: FunctionDef| t@),
        }
    }
}

/// `s` split at its last `c`: the part after it and the part before it.
pub open spec fn split_last(s: Seq<char>, c: char) -> Option<(Seq<char>, Seq<char>)> {
    match rfind_char(s, c) {
        Some(i) => Some((s.skip(i + 1), s.take(i))),
        None => None,
    }
}

/// A one-line `typedef TARGET NAME;`, read as (target, name).
pub open spec fn spec_typedef_line(line: Seq<char>) -> Option<(Seq<char>, Seq<char>)> {
    if !starts_with(line, "typedef"@) {
        None
    } else {
        let a = trim(line.skip("typedef"@.len() as int));
        if !ends_with(a, seq![';']) {
            None
        } else {
            match split_last(trim(a.drop_last()), ' ') {
                Some((name, target)) => Some((target, name)),
                None => None,
            }
        }
    }
}

fn split_last_of(cs: &[char], c: char) -> (r: Option<(Vec<char>, Vec<char>)>)
    ensures
        r matches Some(p) ==> split_last(cs@, c) == Some((p.0@, p.1@)),
        r is None ==> split_last(cs@, c) is None,
{
    proof {
        lemma_rfind_char(cs@, c);
    }
    let n = cs.len();
    match rfind_char_in(cs, c) {
        Some(i) => Some((slice_chars(cs, i + 1, n), slice_chars(cs, 0, i))),
        None => None,
    }
}

fn typedef_line_parts(line: &[char]) -> (r: Option<(Vec<char>, Vec<char>)>)
    ensures
        r matches Some(p) ==> spec_typedef_line(line@) == Some((p.0@, p.1@)),
        r is None ==> spec_typedef_line(line@) is None,
{
    let rest = match strip_prefix_str(line, "typedef") {
        Some(v) => v,
        None => return None,
    };
    let a = trim_chars(rest.as_slice());
    let b = match strip_suffix_char(a.as_slice(), ';') {
        Some(v) => v,
        None => return None,
    };
    let b = trim_chars(b.as_slice());
    match split_last_of(b.as_slice(), ' ') {
        Some((name, target)) => Some((target, name)),
        None => None,
    }
}

/// Reads a one-line `typedef TARGET NAME;` as (target, name).
pub fn parse_typedef_line(line: &str) -> (r: Option<(String, String)>)
    ensures
        r matches Some(p) ==> spec_typedef_line(line@) == Some((p.0@, p.1@)),
        r is None ==> spec_typedef_line(line@) is None,
{
    let cs = chars_of(line);
    match typedef_line_parts(cs.as_slice()) {
        Some((target, name)) => Some((string_of(target.as_slice()), string_of(name.as_slice()))),
        None => None,
    }
}

/// A prototype line without its final `;` or `{`.
pub open spec fn strip_terminator(line: Seq<char>) -> Option<Seq<char>> {
    if ends_with(line, seq![';']) || ends_with(line, seq!['{']) {
        Some(line.drop_last())
    } else {
        None
    }
}

/// A prototype whose last `)` stands before its first `(`: reading it would
/// slice the line backwards.
pub open spec fn function_line_panics(line: Seq<char>) -> bool {
    match strip_terminator(line) {
        None => false,
        Some(l0) => {
            let l = trim(l0);
            match (find_char(l, '('), rfind_char(l, ')')) {
                (Some(a), Some(b)) => b < a,
                _ => false,
            }
        },
    }
}

/// The number of `*` that begin `s`.
pub open spec fn star_count(s: Seq<char>) -> nat
    decreases s.len(),
{
    if s.len() > 0 && s[0] == '*' {
        1 + star_count(s.drop_first())
    } else {
        0
    }
}

/// One parameter `TYPE NAME`, read as (type, name); stars written against the
/// name move to the type, after a space.
pub open spec fn spec_param(piece: Seq<char>) -> Option<(Seq<char>, Seq<char>)> {
    match split_last(trim(piece), ' ') {
        None => None,
        Some((name, typ)) => {
            let k = star_count(name) as int;
            if k > 0 {
                Some((typ + seq![' '] + name.take(k), name.skip(k)))
            } else {
                Some((typ, name))
            }
        },
    }
}

/// The parameters read from comma-separated pieces; pieces without a space are dropped.
pub open spec fn spec_params(pieces: Seq<Seq<char>>) -> Seq<(Seq<char>, Seq<char>)>
    decreases pieces.len(),
{
    if pieces.len() == 0 {
        seq![]
    } else {
        let init = spec_params(pieces.drop_last());
        match spec_param(pieces.last()) {
            Some(p) => init.push(p),
            None => init,
        }
    }
}

/// A prototype `RET NAME(PARAMS);` (or ending in `{`), read as a function.
pub open spec fn spec_function_line(line: Seq<char>) -> Option<FunctionModel> {
    match strip_terminator(line) {
        None => None,
        Some(l0) => {
            let l = trim(l0);
            match (find_char(l, '('), rfind_char(l, ')')) {
                (Some(a), Some(b)) => {
                    let sig = trim(l.take(a));
                    let ps = l.subrange(a + 1, b);
                    let (ret, name) = match split_last(sig, ' ') {
                        Some((n, r)) => (r, n),
                        None => ("void"@, sig),
                    };
                    let params = if trim(ps) == "void"@ || ps.len() == 0 {
                        Seq::empty()
                    } else {
                        spec_params(split_char(ps, ','))
                    };
                    Some(FunctionModel { name, return_type: ret, params })
                },
                _ => None,
            }
        },
    }
}

fn star_count_of(cs: &[char]) -> (r: usize)
    ensures
        r == star_count(cs@),
        r <= cs@.len(),
{
    let n = cs.len();
    let mut i: usize = 0;
    assert(cs@.skip(0) == cs@);
    while i < n && cs[i] == '*'
        invariant
            i <= n == cs@.len(),
            star_count(cs@) == i + star_count(cs@.skip(i as int)),
        decreases n - i,
    {
        assert(cs@.skip(i as int).drop_first() == cs@.skip(i + 1));
        i = i + 1;
    }
    i
}

fn param_of(piece: &[char]) -> (r: Option<(String, String)>)
    ensures
        r matches Some(p) ==> spec_param(piece@) == Some((p.0@, p.1@)),
        r is None ==> spec_param(piece@) is None,
{
    let p = trim_chars(piece);
    match split_last_of(p.as_slice(), ' ') {
        None => None,
        Some((name, typ)) => {
            let k = star_count_of(name.as_slice());
            if k > 0 {
                let mut t = typ;
                t.push(' ');
                let stars = slice_chars(name.as_slice(), 0, k);
                t.extend_from_slice(stars.as_slice());
                let rest = slice_chars(name.as_slice(), k, name.len());
                assert(t@ =~= typ@ + seq![' '] + name@.take(k as int));
                Some((string_of(t.as_slice()), string_of(rest.as_slice())))
            } else {
                Some((string_of(typ.as_slice()), string_of(name.as_slice())))
            }
        },
    }
}

fn params_of(pieces: &Vec<Vec<char>>) -> (r: Vec<(String, String)>)
    ensures
        pair_views(r@) == spec_params(views(pieces@)),
{
    let mut out: Vec<(String, String)> = Vec::new();
    for i in 0..pieces.len()
        invariant
            pair_views(out@) == spec_params(views(pieces@.take(i as int))),
    {
        let ghost before = out@;
        let ghost pv = views(pieces@.take(i + 1));
        assert(pv.drop_last() =~= views(pieces@.take(i as int)));
        assert(pv.last() == pieces@[i as int]@);
        match param_of(pieces[i].as_slice()) {
            Some(p) => {
                out.push(p);
                assert(pair_views(out@) =~= pair_views(before).push((p.0@, p.1@)));
            },
            None => {},
        }
    }
    assert(pieces@.take(pieces@.len() as int) == pieces@);
    out
}

/// Whether reading `line` as a prototype would slice it backwards.
pub fn function_line_is_reversed(line: &[char]) -> (r: bool)
    ensures
        r == function_line_panics(line@),
{
    let l0 = if ends_with_char(line, ';') || ends_with_char(line, '{') {
        slice_chars(line, 0, line.len() - 1)
    } else {
        return false;
    };
    let l = trim_chars(l0.as_slice());
    match (find_char_in(l.as_slice(), '('), rfind_char_in(l.as_slice(), ')')) {
        (Some(a), Some(b)) => b < a,
        _ => false,
    }
}

/// Reads a prototype from the characters of a line.
pub fn function_of_chars(line: &[char]) -> (r: Option<FunctionDef>)
    requires
        !function_line_panics(line@),
    ensures
        r matches Some(f) ==> spec_function_line(line@) == Some(f@),
        r is None ==> spec_function_line(line@) is None,
{
    let l0 = if ends_with_char(line, ';') || ends_with_char(line, '{') {
        slice_chars(line, 0, line.len() - 1)
    } else {
        return None;
    };
    let l = trim_chars(l0.as_slice());
    proof {
        lemma_find_char(l@, '(');
        lemma_rfind_char(l@, ')');
    }
    let a = match find_char_in(l.as_slice(), '(') {
        Some(a) => a,
        None => return None,
    };
    let b = match rfind_char_in(l.as_slice(), ')') {
        Some(b) => b,
        None => return None,
    };
    let head = slice_chars(l.as_slice(), 0, a);
    let sig = trim_chars(head.as_slice());
    let ps = slice_chars(l.as_slice(), a + 1, b);
    let (ret, name) = match split_last_of(sig.as_slice(), ' ') {
        Some((n, r)) => (string_of(r.as_slice()), string_of(n.as_slice())),
        None => (string_from("void"), string_of(sig.as_slice())),
    };
    let trimmed_ps = trim_chars(ps.as_slice());
    let params = if eq_str(trimmed_ps.as_slice(), "void") || ps.len() == 0 {
        let v: Vec<(String, String)> = Vec::new();
        assert(pair_views(v@) =~= Seq::<(Seq<char>, Seq<char>)>::empty());
        v
    } else {
        let pieces = split_char_of(ps.as_slice(), ',');
        params_of(&pieces)
    };
    let f = FunctionDef { name, return_type: ret, params };
    assert(spec_function_line(line@) == Some(f@));
    Some(f)
}

/// Reads a function prototype `RET NAME(PARAMS);` (or one ending in `{`).
pub fn parse_function_line(line: &str) -> (r: Option<FunctionDef>)
    requires
        !function_line_panics(line@),
    ensures
        r matches Some(f) ==> spec_function_line(line@) == Some(f@),
        r is None ==> spec_function_line(line@) is None,
{
    let cs = chars_of(line);
    function_of_chars(cs.as_slice())
}

/// The last whitespace-separated word of `s`.
pub open spec fn last_word(s: Seq<char>) -> Option<Seq<char>> {
    let w = words(s);
    if w.len() == 0 {
        None
    } else {
        Some(w.last())
    }
}

/// The name that closes a `typedef ... { ... } NAME;` block.
pub open spec fn block_name(content: Seq<char>) -> Option<Seq<char>> {
    let c = trim(content);
    if !ends_with(c, seq![';']) {
        None
    } else {
        last_word(trim(c.drop_last()))
    }
}

/// A named block whose last `}` stands before its first `{`: reading it would
/// slice the text backwards.
pub open spec fn block_panics(content: Seq<char>) -> bool {
    let c = trim(content);
    block_name(content) is Some && match (find_char(c, '{'), rfind_char(c, '}')) {
        (Some(a), Some(b)) => b < a,
        _ => false,
    }
}

/// The text between the first `{` and the last `}` of a named block.
pub open spec fn block_body(content: Seq<char>) -> Option<(Seq<char>, Seq<char>)> {
    let c = trim(content);
    match block_name(content) {
        None => None,
        Some(name) => match (find_char(c, '{'), rfind_char(c, '}')) {
            (Some(a), Some(b)) => Some((name, c.subrange(a + 1, b))),
            _ => None,
        },
    }
}

/// A struct field `TYPE... NAME`, read as (type, name).
pub open spec fn spec_field(piece: Seq<char>) -> Option<(Seq<char>, Seq<char>)> {
    let f = trim(piece);
    if f.len() == 0 || starts_with(f, "//"@) {
        None
    } else {
        let parts = words(f);
        if parts.len() >= 2 {
            Some((join(parts.drop_last(), " "@), trim_end_char(parts.last(), '[')))
        } else {
            None
        }
    }
}

pub open spec fn spec_fields(pieces: Seq<Seq<char>>) -> Seq<(Seq<char>, Seq<char>)>
    decreases pieces.len(),
{
    if pieces.len() == 0 {
        seq![]
    } else {
        let init = spec_fields(pieces.drop_last());
        match spec_field(pieces.last()) {
            Some(p) => init.push(p),
            None => init,
        }
    }
}

/// An enum variant `NAME` or `NAME = VALUE`.
pub open spec fn spec_variant(piece: Seq<char>) -> Option<(Seq<char>, Option<Seq<char>>)> {
    let item = trim(piece);
    if item.len() == 0 || starts_with(item, "//"@) {
        None
    } else {
        match find_char(item, '=') {
            Some(i) => Some((trim(item.take(i)), Some(trim(item.skip(i + 1))))),
            None => Some((item, None)),
        }
    }
}

pub open spec fn spec_variants(pieces: Seq<Seq<char>>) -> Seq<(Seq<char>, Option<Seq<char>>)>
    decreases pieces.len(),
{
    if pieces.len() == 0 {
        seq![]
    } else {
        let init = spec_variants(pieces.drop_last());
        match spec_variant(pieces.last()) {
            Some(p) => init.push(p),
            None => init,
        }
    }
}

/// A `typedef struct { FIELDS } NAME;` block read as a struct.
pub open spec fn spec_typedef_struct(content: Seq<char>) -> Option<StructModel> {
    match block_body(content) {
        None => None,
        Some((name, body)) => Some(
            StructModel { name, fields: spec_fields(split_char(body, ';')) },
        ),
    }
}

/// A `typedef enum { VARIANTS } NAME;` block read as an enum.
pub open spec fn spec_typedef_enum(content: Seq<char>) -> Option<EnumModel> {
    match block_body(content) {
        None => None,
        Some((name, body)) => Some(
            EnumModel { name, variants: spec_variants(split_char(body, ',')) },
        ),
    }
}

fn last_word_of(cs: &[char]) -> (r: Option<Vec<char>>)
    ensures
        r matches Some(w) ==> last_word(cs@) == Some(w@),
        r is None ==> last_word(cs@) is None,
{
    let ws = words_of(cs);
    if ws.len() == 0 {
        None
    } else {
        let w = ws[ws.len() - 1].clone();
        assert(views(ws@).last() == ws@[ws@.len() - 1]@);
        Some(w)
    }
}

/// Whether reading a named block would slice it backwards.
pub fn block_is_reversed(content: &[char]) -> (r: bool)
    ensures
        r == block_panics(content@),
{
    let c = trim_chars(content);
    let named = match strip_suffix_char(c.as_slice(), ';') {
        Some(e) => {
            let e = trim_chars(e.as_slice());
            last_word_of(e.as_slice()).is_some()
        },
        None => false,
    };
    if !named {
        return false;
    }
    match (find_char_in(c.as_slice(), '{'), rfind_char_in(c.as_slice(), '}')) {
        (Some(a), Some(b)) => b < a,
        _ => false,
    }
}

fn block_body_of(content: &[char]) -> (r: Option<(Vec<char>, Vec<char>)>)
    requires
        !block_panics(content@),
    ensures
        r matches Some(p) ==> block_body(content@) == Some((p.0@, p.1@)),
        r is None ==> block_body(content@) is None,
{
    let c = trim_chars(content);
    let name = match strip_suffix_char(c.as_slice(), ';') {
        Some(e) => {
            let e = trim_chars(e.as_slice());
            match last_word_of(e.as_slice()) {
                Some(w) => w,
                None => return None,
            }
        },
        None => return None,
    };
    proof {
        lemma_find_char(c@, '{');
        lemma_rfind_char(c@, '}');
    }
    match (find_char_in(c.as_slice(), '{'), rfind_char_in(c.as_slice(), '}')) {
        (Some(a), Some(b)) => Some((name, slice_chars(c.as_slice(), a + 1, b))),
        _ => None,
    }
}

fn field_of(piece: &[char]) -> (r: Option<(String, String)>)
    ensures
        r matches Some(p) ==> spec_field(piece@) == Some((p.0@, p.1@)),
        r is None ==> spec_field(piece@) is None,
{
    let f = trim_chars(piece);
    if f.len() == 0 || starts_with_str(f.as_slice(), "//") {
        return None;
    }
    let parts = words_of(f.as_slice());
    if parts.len() >= 2 {
        let last = parts.len() - 1;
        let init = slice_parts(&parts, last);
        assert(views(init@) =~= views(parts@).drop_last());
        let typ = join_chars(init.as_slice(), " ");
        let name = trim_end_char_of(parts[last].as_slice(), '[');
        assert(views(parts@).last() == parts@[last as int]@);
        Some((string_of(typ.as_slice()), string_of(name.as_slice())))
    } else {
        None
    }
}

fn slice_parts(parts: &Vec<Vec<char>>, n: usize) -> (r: Vec<Vec<char>>)
    requires
        n <= parts@.len(),
    ensures
        views(r@) == views(parts@).take(n as int),
{
    let mut out: Vec<Vec<char>> = Vec::new();
    for i in 0..n
        invariant
            n <= parts@.len(),
            views(out@) == views(parts@).take(i as int),
    {
        let ghost before = views(out@);
        let x = slice_chars(parts[i].as_slice(), 0, parts[i].len());
        assert(x@ == parts@[i as int]@);
        out.push(x);
        assert(views(out@) =~= before.push(x@));
        assert(views(parts@).take(i + 1) =~= views(parts@).take(i as int).push(parts@[i as int]@));
    }
    out
}

fn fields_of(pieces: &Vec<Vec<char>>) -> (r: Vec<(String, String)>)
    ensures
        pair_views(r@) == spec_fields(views(pieces@)),
{
    let mut out: Vec<(String, String)> = Vec::new();
    for i in 0..pieces.len()
        invariant
            pair_views(out@) == spec_fields(views(pieces@.take(i as int))),
    {
        let ghost before = out@;
        let ghost pv = views(pieces@.take(i + 1));
        assert(pv.drop_last() =~= views(pieces@.take(i as int)));
        assert(pv.last() == pieces@[i as int]@);
        match field_of(pieces[i].as_slice()) {
            Some(p) => {
                out.push(p);
                assert(pair_views(out@) =~= pair_views(before).push((p.0@, p.1@)));
            },
            None => {},
        }
    }
    assert(pieces@.take(pieces@.len() as int) == pieces@);
    out
}

fn variant_of(piece: &[char]) -> (r: Option<(String, Option<String>)>)
    ensures
        r matches Some(p) ==> spec_variant(piece@) == Some((p.0@, opt_view(p.1))),
        r is None ==> spec_variant(piece@) is None,
{
    let item = trim_chars(piece);
    if item.len() == 0 || starts_with_str(item.as_slice(), "//") {
        return None;
    }
    proof {
        lemma_find_char(item@, '=');
    }
    match find_char_in(item.as_slice(), '=') {
        Some(i) => {
            let name = slice_chars(item.as_slice(), 0, i);
            let value = slice_chars(item.as_slice(), i + 1, item.len());
            let name = trim_chars(name.as_slice());
            let value = trim_chars(value.as_slice());
            Some((string_of(name.as_slice()), Some(string_of(value.as_slice()))))
        },
        None => Some((string_of(item.as_slice()), None)),
    }
}

fn variants_of(pieces: &Vec<Vec<char>>) -> (r: Vec<(String, Option<String>)>)
    ensures
        variant_views(r@) == spec_variants(views(pieces@)),
{
    let mut out: Vec<(String, Option<String>)> = Vec::new();
    for i in 0..pieces.len()
        invariant
            variant_views(out@) == spec_variants(views(pieces@.take(i as int))),
    {
        let ghost before = out@;
        let ghost pv = views(pieces@.take(i + 1));
        assert(pv.drop_last() =~= views(pieces@.take(i as int)));
        assert(pv.last() == pieces@[i as int]@);
        match variant_of(pieces[i].as_slice()) {
            Some(p) => {
                let ghost pp = (p.0@, opt_view(p.1));
                out.push(p);
                assert(variant_views(out@) =~= variant_views(before).push(pp));
            },
            None => {},
        }
    }
    assert(pieces@.take(pieces@.len() as int) == pieces@);
    out
}

/// Reads the characters of a `typedef struct { FIELDS } NAME;` block.
pub fn struct_of_chars(content: &[char]) -> (r: Option<StructDef>)
    requires
        !block_panics(content@),
    ensures
        r matches Some(d) ==> spec_typedef_struct(content@) == Some(d@),
        r is None ==> spec_typedef_struct(content@) is None,
{
    match block_body_of(content) {
        None => None,
        Some((name, body)) => {
            let pieces = split_char_of(body.as_slice(), ';');
            let fields = fields_of(&pieces);
            Some(StructDef { name: string_of(name.as_slice()), fields })
        },
    }
}

/// Reads the characters of a `typedef enum { VARIANTS } NAME;` block.
pub fn enum_of_chars(content: &[char]) -> (r: Option<EnumDef>)
    requires
        !block_panics(content@),
    ensures
        r matches Some(d) ==> spec_typedef_enum(content@) == Some(d@),
        r is None ==> spec_typedef_enum(content@) is None,
{
    match block_body_of(content) {
        None => None,
        Some((name, body)) => {
            let pieces = split_char_of(body.as_slice(), ',');
            let variants = variants_of(&pieces);
            Some(EnumDef { name: string_of(name.as_slice()), variants })
        },
    }
}

/// Reads a `typedef struct { FIELDS } NAME;` block.
pub fn parse_typedef_struct(content: &str) -> (r: Option<StructDef>)
    requires
        !block_panics(content@),
    ensures
        r matches Some(d) ==> spec_typedef_struct(content@) == Some(d@),
        r is None ==> spec_typedef_struct(content@) is None,
{
    let cs = chars_of(content);
    struct_of_chars(cs.as_slice())
}

/// Reads a `typedef enum { VARIANTS } NAME;` block.
pub fn parse_typedef_enum(content: &str) -> (r: Option<EnumDef>)
    requires
        !block_panics(content@),
    ensures
        r matches Some(d) ==> spec_typedef_enum(content@) == Some(d@),
        r is None ==> spec_typedef_enum(content@) is None,
{
    let cs = chars_of(content);
    enum_of_chars(cs.as_slice())
}

/// The most lines gathered into one `typedef` block.
pub const MAX_TYPEDEF_BLOCK_LINES: usize = 16384;

/// Where a block that begins at line `i` stops gathering: the first line at or
/// after `i` that holds `}`, the end of the lines, or `limit` lines on.
pub open spec fn block_stop(ls: Seq<Seq<char>>, i: int, limit: nat) -> int
    decreases limit,
{
    if i >= ls.len() || ls[i].contains('}') || limit == 0 {
        i
    } else {
        block_stop(ls, i + 1, (limit - 1) as nat)
    }
}

pub proof fn lemma_block_stop(ls: Seq<Seq<char>>, i: int, limit: nat)
    requires
        0 <= i <= ls.len(),
    ensures
        i <= block_stop(ls, i, limit) <= ls.len(),
        block_stop(ls, i, limit) <= i + limit,
    decreases limit,
{
    if !(i >= ls.len() || ls[i].contains('}') || limit == 0) {
        lemma_block_stop(ls, i + 1, (limit - 1) as nat);
    }
}

/// Lines `i..j`, each followed by a space.
pub open spec fn block_text(ls: Seq<Seq<char>>, i: int, j: int) -> Seq<char>
    decreases j - i,
{
    if j <= i {
        seq![]
    } else {
        block_text(ls, i, j - 1) + ls[j - 1] + seq![' ']
    }
}

/// The text of the block that begins at line `i`: the gathered lines, and the
/// line holding `}` when the gathering stopped there.
pub open spec fn block_content(ls: Seq<Seq<char>>, i: int) -> Seq<char> {
    let j = block_stop(ls, i, MAX_TYPEDEF_BLOCK_LINES as nat);
    let t = block_text(ls, i, j);
    if j < ls.len() && ls[j].contains('}') {
        t + ls[j]
    } else {
        t
    }
}

/// A trimmed line that is read as a function prototype.
pub open spec fn is_function_candidate(line: Seq<char>) -> bool {
    &&& !starts_with(line, "typedef"@)
    &&& !starts_with(line, "struct"@)
    &&& !starts_with(line, "enum"@)
    &&& !starts_with(line, "//"@)
    &&& !starts_with(line, "#"@)
    &&& line.contains('(')
    &&& (ends_with(line, seq![';']) || ends_with(line, seq!['{']))
}

pub open spec fn with_typedef(h: HeaderModel, t: TypedefModel) -> HeaderModel {
    HeaderModel { typedefs: h.typedefs.push(t), structs: h.structs, enums: h.enums, functions: h.functions }
}

pub open spec fn with_struct(h: HeaderModel, d: StructModel) -> HeaderModel {
    HeaderModel {
        typedefs: h.typedefs.push(TypedefModel { name: d.name, target: "struct "@ + d.name }),
        structs: h.structs.push(d),
        enums: h.enums,
        functions: h.functions,
    }
}

pub open spec fn with_enum(h: HeaderModel, d: EnumModel) -> HeaderModel {
    HeaderModel {
        typedefs: h.typedefs.push(TypedefModel { name: d.name, target: "enum "@ + d.name }),
        structs: h.structs,
        enums: h.enums.push(d),
        functions: h.functions,
    }
}

pub open spec fn with_function(h: HeaderModel, f: FunctionModel) -> HeaderModel {
    HeaderModel { typedefs: h.typedefs, structs: h.structs, enums: h.enums, functions: h.functions.push(f) }
}

pub open spec fn empty_header() -> HeaderModel {
    HeaderModel { typedefs: seq![], structs: seq![], enums: seq![], functions: seq![] }
}

/// One step of reading a header: the line after the current item and what it
/// added to `acc`; `None` where a block or a prototype would be sliced backwards.
pub open spec fn header_step(ls: Seq<Seq<char>>, i: int, acc: HeaderModel) -> Option<(int, HeaderModel)> {
    let line = trim(ls[i]);
    let stop = block_stop(ls, i, MAX_TYPEDEF_BLOCK_LINES as nat);
    let j = if stop < ls.len() { stop } else { ls.len() - 1 };
    if starts_with(line, "typedef"@) {
        if contains_seq(line, "enum"@) && line.contains('{') {
            let content = block_content(ls, i);
            if block_panics(content) {
                None
            } else {
                match spec_typedef_enum(content) {
                    Some(e) => Some((j + 1, with_enum(acc, e))),
                    None => Some((j + 1, acc)),
                }
            }
        } else if contains_seq(line, "struct"@) && line.contains('{') {
            let content = block_content(ls, i);
            if block_panics(content) {
                None
            } else {
                match spec_typedef_struct(content) {
                    Some(d) => Some((j + 1, with_struct(acc, d))),
                    None => Some((j + 1, acc)),
                }
            }
        } else if ends_with(line, seq![';']) {
            match spec_typedef_line(line) {
                Some((t, n)) => Some((i + 1, with_typedef(acc, TypedefModel { name: n, target: t }))),
                None => Some((i + 1, acc)),
            }
        } else {
            Some((i + 1, acc))
        }
    } else if is_function_candidate(line) {
        if function_line_panics(line) {
            None
        } else {
            match spec_function_line(line) {
                Some(f) => Some((i + 1, with_function(acc, f))),
                None => Some((i + 1, acc)),
            }
        }
    } else {
        Some((i + 1, acc))
    }
}

pub proof fn lemma_header_step(ls: Seq<Seq<char>>, i: int, acc: HeaderModel)
    requires
        0 <= i < ls.len(),
    ensures
        header_step(ls, i, acc) matches Some((next, _)) ==> i < next <= ls.len(),
{
    lemma_block_stop(ls, i, MAX_TYPEDEF_BLOCK_LINES as nat);
}

/// Reading lines `i..` of a header into `acc`; `None` where a block or a
/// prototype would be sliced backwards.
pub open spec fn header_from(ls: Seq<Seq<char>>, i: int, acc: HeaderModel) -> Option<HeaderModel>
    decreases ls.len() - i,
{
    if i < 0 || i >= ls.len() {
        Some(acc)
    } else {
        match header_step(ls, i, acc) {
            None => None,
            Some((next, acc2)) => {
                proof {
                    lemma_header_step(ls, i, acc);
                }
                header_from(ls, next, acc2)
            },
        }
    }
}

/// The declarations of a header; `None` where the reader would slice a
/// block or a prototype backwards.
pub open spec fn spec_parse_header(content: Seq<char>) -> Option<HeaderModel> {
    header_from(lines(content), 0, empty_header())
}

/// Each `typedef struct`/`typedef enum` block read from a header is also
/// recorded as a typedef of its name to `struct NAME`/`enum NAME`.
pub open spec fn blocks_aliased(h: HeaderModel) -> bool {
    &&& forall|k: int| 0 <= k < h.structs.len() ==> h.typedefs.contains(
        TypedefModel { name: #[trigger] h.structs[k].name, target: "struct "@ + h.structs[k].name },
    )
    &&& forall|k: int| 0 <= k < h.enums.len() ==> h.typedefs.contains(
        TypedefModel { name: #[trigger] h.enums[k].name, target: "enum "@ + h.enums[k].name },
    )
}

proof fn lemma_step_keeps_aliases(ls: Seq<Seq<char>>, i: int, acc: HeaderModel)
    requires
        0 <= i < ls.len(),
        blocks_aliased(acc),
    ensures
        header_step(ls, i, acc) matches Some((_, next)) ==> blocks_aliased(next),
{
    if let Some((_, next)) = header_step(ls, i, acc) {
        assert forall|k: int| 0 <= k < next.structs.len() implies next.typedefs.contains(
            TypedefModel { name: #[trigger] next.structs[k].name, target: "struct "@ + next.structs[k].name },
        ) by {
            let t = TypedefModel { name: next.structs[k].name, target: "struct "@ + next.structs[k].name };
            if k < acc.structs.len() && next.structs[k] == acc.structs[k] {
                let m = choose|m: int| 0 <= m < acc.typedefs.len() && acc.typedefs[m] == t;
                if next.typedefs.len() > acc.typedefs.len() {
                    assert(next.typedefs[m] == acc.typedefs[m]);
                } else {
                    assert(next.typedefs[m] == t);
                }
            } else {
                assert(next.typedefs[next.typedefs.len() - 1] == t);
            }
        }
        assert forall|k: int| 0 <= k < next.enums.len() implies next.typedefs.contains(
            TypedefModel { name: #[trigger] next.enums[k].name, target: "enum "@ + next.enums[k].name },
        ) by {
            let t = TypedefModel { name: next.enums[k].name, target: "enum "@ + next.enums[k].name };
            if k < acc.enums.len() && next.enums[k] == acc.enums[k] {
                let m = choose|m: int| 0 <= m < acc.typedefs.len() && acc.typedefs[m] == t;
                if next.typedefs.len() > acc.typedefs.len() {
                    assert(next.typedefs[m] == acc.typedefs[m]);
                } else {
                    assert(next.typedefs[m] == t);
                }
            } else {
                assert(next.typedefs[next.typedefs.len() - 1] == t);
            }
        }
    }
}

proof fn lemma_header_from_keeps_aliases(ls: Seq<Seq<char>>, i: int, acc: HeaderModel)
    requires
        blocks_aliased(acc),
    ensures
        header_from(ls, i, acc) matches Some(h) ==> blocks_aliased(h),
    decreases ls.len() - i,
{
    if 0 <= i < ls.len() {
        lemma_header_step(ls, i, acc);
        lemma_step_keeps_aliases(ls, i, acc);
        if let Some((next, acc2)) = header_step(ls, i, acc) {
            lemma_header_from_keeps_aliases(ls, next, acc2);
        }
    }
}

/// Every `typedef struct` and `typedef enum` block of a header comes with a
/// typedef of its name, so the bindings can tell such aliases apart.
pub proof fn law_parsed_blocks_are_aliased(content: Seq<char>)
    ensures
        spec_parse_header(content) matches Some(h) ==> blocks_aliased(h),
{
    lemma_header_from_keeps_aliases(lines(content), 0, empty_header());
}

/// Every function read from the lines `ls` comes from a prototype line: one
/// that, trimmed, is a function candidate (so not a `#`, `//`, `typedef`,
/// `struct` or `enum` line) and reads as that function.
pub open spec fn functions_from_prototypes(ls: Seq<Seq<char>>, h: HeaderModel) -> bool {
    forall|k: int| 0 <= k < h.functions.len() ==> exists|i: int|
        0 <= i < ls.len() && is_function_candidate(trim(ls[i])) && spec_function_line(trim(ls[i]))
            == Some(#[trigger] h.functions[k])
}

proof fn lemma_step_keeps_prototypes(ls: Seq<Seq<char>>, i: int, acc: HeaderModel)
    requires
        0 <= i < ls.len(),
        functions_from_prototypes(ls, acc),
        acc.typedefs.len() >= acc.structs.len() + acc.enums.len(),
    ensures
        header_step(ls, i, acc) matches Some((_, next)) ==> functions_from_prototypes(ls, next)
            && next.typedefs.len() >= next.structs.len() + next.enums.len(),
{
    if let Some((_, next)) = header_step(ls, i, acc) {
        assert forall|k: int| 0 <= k < next.functions.len() implies exists|j: int|
            0 <= j < ls.len() && is_function_candidate(trim(ls[j])) && spec_function_line(trim(ls[j]))
                == Some(#[trigger] next.functions[k]) by {
            if k < acc.functions.len() && next.functions[k] == acc.functions[k] {
                let j = choose|j: int|
                    0 <= j < ls.len() && is_function_candidate(trim(ls[j])) && spec_function_line(trim(ls[j]))
                        == Some(acc.functions[k]);
            } else {
                assert(is_function_candidate(trim(ls[i])) && spec_function_line(trim(ls[i])) == Some(next.functions[k]));
            }
        }
    }
}

proof fn lemma_header_from_keeps_prototypes(ls: Seq<Seq<char>>, i: int, acc: HeaderModel)
    requires
        functions_from_prototypes(ls, acc),
        acc.typedefs.len() >= acc.structs.len() + acc.enums.len(),
    ensures
        header_from(ls, i, acc) matches Some(h) ==> functions_from_prototypes(ls, h)
            && h.typedefs.len() >= h.structs.len() + h.enums.len(),
    decreases ls.len() - i,
{
    if 0 <= i < ls.len() {
        lemma_header_step(ls, i, acc);
        lemma_step_keeps_prototypes(ls, i, acc);
        if let Some((next, acc2)) = header_step(ls, i, acc) {
            lemma_header_from_keeps_prototypes(ls, next, acc2);
        }
    }
}

/// What a header reads as: every function comes from a prototype line of the
/// header (never from a `#`, `//`, `typedef`, `struct` or `enum` line), and
/// there are at least as many typedefs as structs and enums together.
pub proof fn law_parsed_functions_come_from_prototypes(content: Seq<char>)
    ensures
        spec_parse_header(content) matches Some(h) ==> functions_from_prototypes(lines(content), h)
            && h.typedefs.len() >= h.structs.len() + h.enums.len(),
{
    lemma_header_from_keeps_prototypes(lines(content), 0, empty_header());
}

/// `f` is read from the header line `line`: trimmed, the line ends in `;` or
/// `{`, holds a `(`, does not begin with `#`, `//`, `typedef`, `struct` or
/// `enum`, and reads as `f`.
pub open spec fn read_from_prototype_line(line: Seq<char>, f: FunctionModel) -> bool {
    let t = trim(line);
    &&& !starts_with(t, "#"@)
    &&& !starts_with(t, "//"@)
    &&& !starts_with(t, "typedef"@)
    &&& !starts_with(t, "struct"@)
    &&& !starts_with(t, "enum"@)
    &&& t.contains('(')
    &&& (ends_with(t, seq![';']) || ends_with(t, seq!['{']))
    &&& spec_function_line(t) == Some(f)
}

/// What `parse_c_header` gives for a header it accepts: every struct and
/// enum comes with a typedef alias of its name, there are at least as many
/// typedefs as structs and enums together, and every function is read from a
/// prototype line of the header (never from a `#`, `//`, `typedef`, `struct`
/// or `enum` line).
pub proof fn law_parse_c_header_shape(content: Seq<char>)
    ensures
        spec_parse_header(content) matches Some(h) ==> {
            &&& blocks_aliased(h)
            &&& h.typedefs.len() >= h.structs.len() + h.enums.len()
            &&& forall|k: int| 0 <= k < h.functions.len() ==> exists|i: int|
                0 <= i < lines(content).len() && read_from_prototype_line(lines(content)[i], #[trigger] h.functions[k])
        },
{
    law_parsed_blocks_are_aliased(content);
    law_parsed_functions_come_from_prototypes(content);
    if let Some(h) = spec_parse_header(content) {
        assert forall|k: int| 0 <= k < h.functions.len() implies exists|i: int|
            0 <= i < lines(content).len() && read_from_prototype_line(lines(content)[i], #[trigger] h.functions[k]) by {
            let i = choose|i: int|
                0 <= i < lines(content).len() && is_function_candidate(trim(lines(content)[i]))
                    && spec_function_line(trim(lines(content)[i])) == Some(#[trigger] h.functions[k]);
            assert(read_from_prototype_line(lines(content)[i], h.functions[k]));
        }
    }
}

/// `parse_function_line` gives none exactly when the line does not end in
/// `;` or `{`, or lacks a `(` or a `)`. This holds of every line it accepts:
/// those whose last `)` does not come before their first `(`.
pub proof fn law_parse_function_line_reads(line: Seq<char>)
    requires
        !function_line_panics(line),
    ensures
        spec_function_line(line) is None <==> (!(ends_with(line, seq![';']) || ends_with(line, seq!['{']))
            || !line.contains('(') || !line.contains(')')),
{
    if let Some(l0) = strip_terminator(line) {
        let l = trim(l0);
        let last = line.last();
        assert(last == ';' || last == '{') by {
            if ends_with(line, seq![';']) {
                assert(line.skip(line.len() - 1)[0] == last);
            } else {
                assert(line.skip(line.len() - 1)[0] == last);
            }
        }
        assert forall|c: char| c != last implies (line.contains(c) <==> l0.contains(c)) by {
            if line.contains(c) {
                let k = choose|k: int| 0 <= k < line.len() && line[k] == c;
                assert(k < line.len() - 1);
                assert(l0[k] == c);
            }
            if l0.contains(c) {
                let k = choose|k: int| 0 <= k < l0.len() && l0[k] == c;
                assert(line[k] == c);
            }
        }
        lemma_trim_contains(l0, '(');
        lemma_trim_contains(l0, ')');
        lemma_find_char(l, '(');
        lemma_rfind_char(l, ')');
        if l.contains('(') {
            let k = choose|k: int| 0 <= k < l.len() && l[k] == '(';
            assert(l[k] == '(');
        }
        if l.contains(')') {
            let k = choose|k: int| 0 <= k < l.len() && l[k] == ')';
            assert(l[k] == ')');
        }
        assert(line.contains('(') <==> l.contains('('));
        assert(line.contains(')') <==> l.contains(')'));
    }
}

fn is_function_candidate_exec(line: &[char]) -> (r: bool)
    ensures
        r == is_function_candidate(line@),
{
    !starts_with_str(line, "typedef") && !starts_with_str(line, "struct") && !starts_with_str(
        line,
        "enum",
    ) && !starts_with_str(line, "//") && !starts_with_str(line, "#") && contains_char(line, '(')
        && (ends_with_char(line, ';') || ends_with_char(line, '{'))
}

/// Gathers the block that begins at line `i`; returns its text and where it stopped.
fn gather_block(ls: &Vec<Vec<char>>, i: usize) -> (r: (Vec<char>, usize))
    requires
        i < ls@.len(),
    ensures
        r.0@ == block_content(views(ls@), i as int),
        r.1 == block_stop(views(ls@), i as int, MAX_TYPEDEF_BLOCK_LINES as nat),
{
    let ghost v = views(ls@);
    let n = ls.len();
    let mut j: usize = i;
    let mut text: Vec<char> = Vec::new();
    while j < n && !contains_char(ls[j].as_slice(), '}') && j - i < MAX_TYPEDEF_BLOCK_LINES
        invariant
            i <= j <= n == ls@.len(),
            j - i <= MAX_TYPEDEF_BLOCK_LINES,
            v == views(ls@),
            text@ == block_text(v, i as int, j as int),
            block_stop(v, i as int, MAX_TYPEDEF_BLOCK_LINES as nat) == block_stop(
                v,
                j as int,
                (MAX_TYPEDEF_BLOCK_LINES - (j - i)) as nat,
            ),
        decreases n - j,
    {
        assert(v[j as int] == ls@[j as int]@);
        text.extend_from_slice(ls[j].as_slice());
        text.push(' ');
        assert(block_text(v, i as int, j + 1) == block_text(v, i as int, j as int) + v[j as int]
            + seq![' ']);
        j = j + 1;
    }
    assert(j < n ==> v[j as int] == ls@[j as int]@);
    if j < n && contains_char(ls[j].as_slice(), '}') {
        text.extend_from_slice(ls[j].as_slice());
    }
    (text, j)
}

/// Reads the declarations of a header from its characters; `None` where the
/// reader would slice a block or a prototype backwards.
pub fn header_of_chars(content: &[char]) -> (r: Option<ParsedHeader>)
    ensures
        r matches Some(h) ==> spec_parse_header(content@) == Some(h@),
        r is None ==> spec_parse_header(content@) is None,
{
    let ls = lines_of(content);
    let ghost v = views(ls@);
    let mut h = ParsedHeader {
        typedefs: Vec::new(),
        structs: Vec::new(),
        enums: Vec::new(),
        functions: Vec::new(),
    };
    assert(h@ =~= empty_header());
    let n = ls.len();
    let mut i: usize = 0;
    while i < n
        invariant
            i <= n == ls@.len(),
            v == views(ls@),
            v == lines(content@),
            header_from(v, i as int, h@) == spec_parse_header(content@),
        decreases n - i,
    {
        let ghost before = h@;
        assert(v[i as int] == ls@[i as int]@);
        let line = trim_chars(ls[i].as_slice());
        proof {
            lemma_block_stop(v, i as int, MAX_TYPEDEF_BLOCK_LINES as nat);
        }
        let mut next: usize = i + 1;
        proof {
            lemma_header_step(v, i as int, before);
        }
        if starts_with_str(line.as_slice(), "typedef") {
            let is_enum = contains_str(line.as_slice(), "enum") && contains_char(line.as_slice(), '{');
            let is_struct = contains_str(line.as_slice(), "struct") && contains_char(
                line.as_slice(),
                '{',
            );
            if is_enum || is_struct {
                let (content_text, j) = gather_block(&ls, i);
                if block_is_reversed(content_text.as_slice()) {
                    return None;
                }
                if is_enum {
                    match enum_of_chars(content_text.as_slice()) {
                        Some(e) => {
                            let ghost em = e@;
                            let mut target = string_from("enum ");
                            push_str(&mut target, e.name.as_str());
                            let name = e.name.clone();
                            h.typedefs.push(TypedefDef { name, target });
                            h.enums.push(e);
                            assert(h@ =~= with_enum(before, em));
                        },
                        None => {},
                    }
                } else {
                    match struct_of_chars(content_text.as_slice()) {
                        Some(d) => {
                            let ghost dm = d@;
                            let mut target = string_from("struct ");
                            push_str(&mut target, d.name.as_str());
                            let name = d.name.clone();
                            h.structs.push(d);
                            h.typedefs.push(TypedefDef { name, target });
                            assert(h@ =~= with_struct(before, dm));
                        },
                        None => {},
                    }
                }
                next = if j < n { j + 1 } else { n };
                proof {
                    lemma_header_step(v, i as int, before);
                }
                assert(header_from(v, i as int, before) == header_from(v, next as int, h@));
            } else if ends_with_char(line.as_slice(), ';') {
                match typedef_line_parts(line.as_slice()) {
                    Some((t, nm)) => {
                        h.typedefs.push(
                            TypedefDef {
                                name: string_of(nm.as_slice()),
                                target: string_of(t.as_slice()),
                            },
                        );
                        assert(h@ =~= with_typedef(before, TypedefModel { name: nm@, target: t@ }));
                    },
                    None => {},
                }
                assert(header_from(v, i as int, before) == header_from(v, next as int, h@));
            } else {
                assert(header_from(v, i as int, before) == header_from(v, next as int, h@));
            }
        } else if is_function_candidate_exec(line.as_slice()) {
            if function_line_is_reversed(line.as_slice()) {
                return None;
            }
            match function_of_chars(line.as_slice()) {
                Some(f) => {
                    let ghost fm = f@;
                    h.functions.push(f);
                    assert(h@ =~= with_function(before, fm));
                },
                None => {},
            }
            assert(header_from(v, i as int, before) == header_from(v, next as int, h@));
        } else {
            assert(header_from(v, i as int, before) == header_from(v, next as int, h@));
        }
        i = next;
    }
    Some(h)
}

/// Reads the declarations of a header: typedefs, `typedef struct`/`typedef enum`
/// blocks and function prototypes, line by line.
pub fn parse_c_header(content: &str) -> (r: ParsedHeader)
    requires
        spec_parse_header(content@) is Some,
    ensures
        spec_parse_header(content@) == Some(r@),
{
    let cs = chars_of(content);
    match header_of_chars(cs.as_slice()) {
        Some(h) => h,
        None => {
            assert(false);
            ParsedHeader { typedefs: Vec::new(), structs: Vec::new(), enums: Vec::new(), functions: Vec::new() }
        },
    }
}

/// Reads the declarations of a header, or `None` where a `typedef` block or a
/// prototype has its closing bracket before its opening one.
pub fn try_parse_c_header(content: &str) -> (r: Option<ParsedHeader>)
    ensures
        r matches Some(h) ==> spec_parse_header(content@) == Some(h@),
        r is None ==> spec_parse_header(content@) is None,
{
    let cs = chars_of(content);
    header_of_chars(cs.as_slice())
}

/// The Rust name of a C scalar type written exactly as `t`, if it is one.
pub open spec fn scalar_rust_name(t: Seq<char>) -> Option<Seq<char>> {
    if t == "void"@ {
        Some("()"@)
    } else if t == "int"@ {
        Some("c_int"@)
    } else if t == "unsigned int"@ {
        Some("c_uint"@)
    } else if t == "uint"@ {
        Some("c_uint"@)
    } else if t == "long"@ {
        Some("c_long"@)
    } else if t == "unsigned long"@ {
        Some("c_ulong"@)
    } else if t == "ulong"@ {
        Some("c_ulong"@)
    } else if t == "long long"@ {
        Some("c_longlong"@)
    } else if t == "unsigned long long"@ {
        Some("c_ulonglong"@)
    } else if t == "short"@ {
        Some("c_short"@)
    } else if t == "unsigned short"@ {
        Some("c_ushort"@)
    } else if t == "ushort"@ {
        Some("c_ushort"@)
    } else if t == "char"@ {
        Some("c_char"@)
    } else if t == "unsigned char"@ {
        Some("c_uchar"@)
    } else if t == "uchar"@ {
        Some("c_uchar"@)
    } else if t == "signed char"@ {
        Some("c_schar"@)
    } else if t == "float"@ {
        Some("c_float"@)
    } else if t == "double"@ {
        Some("c_double"@)
    } else if t == "size_t"@ {
        Some("usize"@)
    } else if t == "ssize_t"@ {
        Some("isize"@)
    } else if t == "bool"@ {
        Some("bool"@)
    } else if t == "_Bool"@ {
        Some("bool"@)
    } else if t == "uint8_t"@ {
        Some("u8"@)
    } else if t == "uint16_t"@ {
        Some("u16"@)
    } else if t == "uint32_t"@ {
        Some("u32"@)
    } else if t == "uint64_t"@ {
        Some("u64"@)
    } else if t == "int8_t"@ {
        Some("i8"@)
    } else if t == "int16_t"@ {
        Some("i16"@)
    } else if t == "int32_t"@ {
        Some("i32"@)
    } else if t == "int64_t"@ {
        Some("i64"@)
    } else {
        None
    }
}

fn scalar_rust_name_of(t: &[char]) -> (r: Option<&'static str>)
    ensures
        r matches Some(s) ==> scalar_rust_name(t@) == Some(s@),
        r is None ==> scalar_rust_name(t@) is None,
{
    if eq_str(t, "void") {
        Some("()")
    } else if eq_str(t, "int") {
        Some("c_int")
    } else if eq_str(t, "unsigned int") {
        Some("c_uint")
    } else if eq_str(t, "uint") {
        Some("c_uint")
    } else if eq_str(t, "long") {
        Some("c_long")
    } else if eq_str(t, "unsigned long") {
        Some("c_ulong")
    } else if eq_str(t, "ulong") {
        Some("c_ulong")
    } else if eq_str(t, "long long") {
        Some("c_longlong")
    } else if eq_str(t, "unsigned long long") {
        Some("c_ulonglong")
    } else if eq_str(t, "short") {
        Some("c_short")
    } else if eq_str(t, "unsigned short") {
        Some("c_ushort")
    } else if eq_str(t, "ushort") {
        Some("c_ushort")
    } else if eq_str(t, "char") {
        Some("c_char")
    } else if eq_str(t, "unsigned char") {
        Some("c_uchar")
    } else if eq_str(t, "uchar") {
        Some("c_uchar")
    } else if eq_str(t, "signed char") {
        Some("c_schar")
    } else if eq_str(t, "float") {
        Some("c_float")
    } else if eq_str(t, "double") {
        Some("c_double")
    } else if eq_str(t, "size_t") {
        Some("usize")
    } else if eq_str(t, "ssize_t") {
        Some("isize")
    } else if eq_str(t, "bool") {
        Some("bool")
    } else if eq_str(t, "_Bool") {
        Some("bool")
    } else if eq_str(t, "uint8_t") {
        Some("u8")
    } else if eq_str(t, "uint16_t") {
        Some("u16")
    } else if eq_str(t, "uint32_t") {
        Some("u32")
    } else if eq_str(t, "uint64_t") {
        Some("u64")
    } else if eq_str(t, "int8_t") {
        Some("i8")
    } else if eq_str(t, "int16_t") {
        Some("i16")
    } else if eq_str(t, "int32_t") {
        Some("i32")
    } else if eq_str(t, "int64_t") {
        Some("i64")
    } else {
        None
    }
}

/// The Rust FFI spelling of a C type: scalars by their `std::os::raw` or
/// fixed-width names, pointers as `*mut`/`*const` of the pointee, `const`
/// dropped from non-pointer types, and any other name kept as written.
pub open spec fn rust_type(c_type: Seq<char>) -> Seq<char>
    decreases c_type.len(),
{
    let t = trim(c_type);
    proof {
        lemma_trim_len(c_type);
    }
    match scalar_rust_name(t) {
        Some(r) => r,
        None => if ends_with(t, seq!['*']) {
            let inner = trim(t.drop_last());
            proof {
                lemma_trim_len(t.drop_last());
            }
            if inner == "void"@ {
                "*mut c_void"@
            } else if inner == "const void"@ {
                "*const c_void"@
            } else if starts_with(inner, "const "@) {
                proof {
                    reveal_strlit("const ");
                }
                "*const "@ + rust_type(inner.skip("const "@.len() as int))
            } else {
                "*mut "@ + rust_type(inner)
            }
        } else if starts_with(t, "const "@) {
            proof {
                reveal_strlit("const ");
            }
            rust_type(t.skip("const "@.len() as int))
        } else {
            t
        },
    }
}

/// Whether a C type can cross the C ABI as written: scalars and pointers;
/// not `struct`/`enum` by value, nor an empty type.
pub open spec fn c_abi_safe(c_type: Seq<char>) -> bool {
    let t = trim(c_type);
    if t.len() == 0 {
        false
    } else if starts_with(t, "struct "@) || starts_with(t, "enum "@) {
        false
    } else if ends_with(t, seq!['*']) {
        true
    } else {
        is_scalar_c_type(t)
    }
}

pub open spec fn is_scalar_c_type(t: Seq<char>) -> bool {
    ||| t == "void"@
    ||| t == "int"@
    ||| t == "unsigned int"@
    ||| t == "uint"@
    ||| t == "long"@
    ||| t == "unsigned long"@
    ||| t == "ulong"@
    ||| t == "long long"@
    ||| t == "unsigned long long"@
    ||| t == "short"@
    ||| t == "unsigned short"@
    ||| t == "ushort"@
    ||| t == "char"@
    ||| t == "unsigned char"@
    ||| t == "uchar"@
    ||| t == "signed char"@
    ||| t == "float"@
    ||| t == "double"@
    ||| t == "size_t"@
    ||| t == "ssize_t"@
    ||| t == "bool"@
    ||| t == "_Bool"@
    ||| t == "uint8_t"@
    ||| t == "uint16_t"@
    ||| t == "uint32_t"@
    ||| t == "uint64_t"@
    ||| t == "int8_t"@
    ||| t == "int16_t"@
    ||| t == "int32_t"@
    ||| t == "int64_t"@
}

fn is_scalar_c_type_of(t: &[char]) -> (r: bool)
    ensures
        r == is_scalar_c_type(t@),
{
    eq_str(t, "void") || eq_str(t, "int") || eq_str(t, "unsigned int") || eq_str(t, "uint") || eq_str(t, "long") || eq_str(t, "unsigned long") || eq_str(t, "ulong") || eq_str(t, "long long") || eq_str(t, "unsigned long long") || eq_str(t, "short") || eq_str(t, "unsigned short") || eq_str(t, "ushort") || eq_str(t, "char") || eq_str(t, "unsigned char") || eq_str(t, "uchar") || eq_str(t, "signed char") || eq_str(t, "float") || eq_str(t, "double") || eq_str(t, "size_t") || eq_str(t, "ssize_t") || eq_str(t, "bool") || eq_str(t, "_Bool") || eq_str(t, "uint8_t") || eq_str(t, "uint16_t") || eq_str(t, "uint32_t") || eq_str(t, "uint64_t") || eq_str(t, "int8_t") || eq_str(t, "int16_t") || eq_str(t, "int32_t") || eq_str(t, "int64_t")
}

/// Whether a C type can cross the C ABI as written.
pub fn is_c_abi_safe_type(c_type: &str) -> (r: bool)
    ensures
        r == c_abi_safe(c_type@),
{
    let cs = chars_of(c_type);
    let t = trim_chars(cs.as_slice());
    if t.len() == 0 {
        false
    } else if starts_with_str(t.as_slice(), "struct ") || starts_with_str(t.as_slice(), "enum ") {
        false
    } else if ends_with_char(t.as_slice(), '*') {
        true
    } else {
        is_scalar_c_type_of(t.as_slice())
    }
}

pub fn rust_type_of(c_type: &[char]) -> (r: Vec<char>)
    ensures
        r@ == rust_type(c_type@),
    decreases c_type@.len(),
{
    let t = trim_chars(c_type);
    proof {
        lemma_trim_len(c_type@);
    }
    match scalar_rust_name_of(t.as_slice()) {
        Some(r) => chars_of(r),
        None => {
            if ends_with_char(t.as_slice(), '*') {
                let body = slice_chars(t.as_slice(), 0, t.len() - 1);
                let inner = trim_chars(body.as_slice());
                proof {
                    lemma_trim_len(body@);
                }
                if eq_str(inner.as_slice(), "void") {
                    chars_of("*mut c_void")
                } else if eq_str(inner.as_slice(), "const void") {
                    chars_of("*const c_void")
                } else {
                    match strip_prefix_str(inner.as_slice(), "const ") {
                        Some(rest) => {
                            proof {
                                reveal_strlit("const ");
                            }
                            let mut out = chars_of("*const ");
                            let tail = rust_type_of(rest.as_slice());
                            out.extend_from_slice(tail.as_slice());
                            out
                        },
                        None => {
                            let mut out = chars_of("*mut ");
                            let tail = rust_type_of(inner.as_slice());
                            out.extend_from_slice(tail.as_slice());
                            out
                        },
                    }
                }
            } else {
                match strip_prefix_str(t.as_slice(), "const ") {
                    Some(rest) => {
                        proof {
                            reveal_strlit("const ");
                        }
                        rust_type_of(rest.as_slice())
                    },
                    None => t,
                }
            }
        },
    }
}

/// The Rust FFI spelling of a C type.
pub fn c_type_to_rust(c_type: &str) -> (r: String)
    ensures
        r@ == rust_type(c_type@),
{
    let cs = chars_of(c_type);
    let r = rust_type_of(cs.as_slice());
    string_of(r.as_slice())
}

/// The C scalar names end in a letter or a digit, and none that is seven
/// characters or longer begins with `c`.
pub proof fn lemma_scalar_names_shape(t: Seq<char>)
    ensures
        scalar_rust_name(t) is Some ==> t.len() > 0 && t.last() != '*' && (t.len() < 7 || t[0] != 'c'),
{
    reveal_strlit("void");
    reveal_strlit("int");
    reveal_strlit("unsigned int");
    reveal_strlit("uint");
    reveal_strlit("long");
    reveal_strlit("unsigned long");
    reveal_strlit("ulong");
    reveal_strlit("long long");
    reveal_strlit("unsigned long long");
    reveal_strlit("short");
    reveal_strlit("unsigned short");
    reveal_strlit("ushort");
    reveal_strlit("char");
    reveal_strlit("unsigned char");
    reveal_strlit("uchar");
    reveal_strlit("signed char");
    reveal_strlit("float");
    reveal_strlit("double");
    reveal_strlit("size_t");
    reveal_strlit("ssize_t");
    reveal_strlit("bool");
    reveal_strlit("_Bool");
    reveal_strlit("uint8_t");
    reveal_strlit("uint16_t");
    reveal_strlit("uint32_t");
    reveal_strlit("uint64_t");
    reveal_strlit("int8_t");
    reveal_strlit("int16_t");
    reveal_strlit("int32_t");
    reveal_strlit("int64_t");
    assert("void"@.len() > 0 && "void"@.last() != '*' && ("void"@.len() < 7 || "void"@[0] != 'c'));
    assert("int"@.len() > 0 && "int"@.last() != '*' && ("int"@.len() < 7 || "int"@[0] != 'c'));
    assert("unsigned int"@.len() > 0 && "unsigned int"@.last() != '*' && ("unsigned int"@.len() < 7 || "unsigned int"@[0] != 'c'));
    assert("uint"@.len() > 0 && "uint"@.last() != '*' && ("uint"@.len() < 7 || "uint"@[0] != 'c'));
    assert("long"@.len() > 0 && "long"@.last() != '*' && ("long"@.len() < 7 || "long"@[0] != 'c'));
    assert("unsigned long"@.len() > 0 && "unsigned long"@.last() != '*' && ("unsigned long"@.len() < 7 || "unsigned long"@[0] != 'c'));
    assert("ulong"@.len() > 0 && "ulong"@.last() != '*' && ("ulong"@.len() < 7 || "ulong"@[0] != 'c'));
    assert("long long"@.len() > 0 && "long long"@.last() != '*' && ("long long"@.len() < 7 || "long long"@[0] != 'c'));
    assert("unsigned long long"@.len() > 0 && "unsigned long long"@.last() != '*' && ("unsigned long long"@.len() < 7 || "unsigned long long"@[0] != 'c'));
    assert("short"@.len() > 0 && "short"@.last() != '*' && ("short"@.len() < 7 || "short"@[0] != 'c'));
    assert("unsigned short"@.len() > 0 && "unsigned short"@.last() != '*' && ("unsigned short"@.len() < 7 || "unsigned short"@[0] != 'c'));
    assert("ushort"@.len() > 0 && "ushort"@.last() != '*' && ("ushort"@.len() < 7 || "ushort"@[0] != 'c'));
    assert("char"@.len() > 0 && "char"@.last() != '*' && ("char"@.len() < 7 || "char"@[0] != 'c'));
    assert("unsigned char"@.len() > 0 && "unsigned char"@.last() != '*' && ("unsigned char"@.len() < 7 || "unsigned char"@[0] != 'c'));
    assert("uchar"@.len() > 0 && "uchar"@.last() != '*' && ("uchar"@.len() < 7 || "uchar"@[0] != 'c'));
    assert("signed char"@.len() > 0 && "signed char"@.last() != '*' && ("signed char"@.len() < 7 || "signed char"@[0] != 'c'));
    assert("float"@.len() > 0 && "float"@.last() != '*' && ("float"@.len() < 7 || "float"@[0] != 'c'));
    assert("double"@.len() > 0 && "double"@.last() != '*' && ("double"@.len() < 7 || "double"@[0] != 'c'));
    assert("size_t"@.len() > 0 && "size_t"@.last() != '*' && ("size_t"@.len() < 7 || "size_t"@[0] != 'c'));
    assert("ssize_t"@.len() > 0 && "ssize_t"@.last() != '*' && ("ssize_t"@.len() < 7 || "ssize_t"@[0] != 'c'));
    assert("bool"@.len() > 0 && "bool"@.last() != '*' && ("bool"@.len() < 7 || "bool"@[0] != 'c'));
    assert("_Bool"@.len() > 0 && "_Bool"@.last() != '*' && ("_Bool"@.len() < 7 || "_Bool"@[0] != 'c'));
    assert("uint8_t"@.len() > 0 && "uint8_t"@.last() != '*' && ("uint8_t"@.len() < 7 || "uint8_t"@[0] != 'c'));
    assert("uint16_t"@.len() > 0 && "uint16_t"@.last() != '*' && ("uint16_t"@.len() < 7 || "uint16_t"@[0] != 'c'));
    assert("uint32_t"@.len() > 0 && "uint32_t"@.last() != '*' && ("uint32_t"@.len() < 7 || "uint32_t"@[0] != 'c'));
    assert("uint64_t"@.len() > 0 && "uint64_t"@.last() != '*' && ("uint64_t"@.len() < 7 || "uint64_t"@[0] != 'c'));
    assert("int8_t"@.len() > 0 && "int8_t"@.last() != '*' && ("int8_t"@.len() < 7 || "int8_t"@[0] != 'c'));
    assert("int16_t"@.len() > 0 && "int16_t"@.last() != '*' && ("int16_t"@.len() < 7 || "int16_t"@[0] != 'c'));
    assert("int32_t"@.len() > 0 && "int32_t"@.last() != '*' && ("int32_t"@.len() < 7 || "int32_t"@[0] != 'c'));
    assert("int64_t"@.len() > 0 && "int64_t"@.last() != '*' && ("int64_t"@.len() < 7 || "int64_t"@[0] != 'c'));
}

/// A C pointer type is spelled as a Rust raw pointer (`*mut` or `*const`).
pub proof fn law_pointer_types_map_to_raw_pointers(c_type: Seq<char>)
    requires
        ends_with(trim(c_type), seq!['*']),
    ensures
        starts_with(rust_type(c_type), "*mut "@) || starts_with(rust_type(c_type), "*const "@),
{
    let t = trim(c_type);
    assert(t.last() == '*') by {
        assert(t.skip(t.len() - 1)[0] == t.last());
    }
    lemma_scalar_names_shape(t);
    assert(scalar_rust_name(t) is None);
    reveal_strlit("*mut c_void");
    reveal_strlit("*const c_void");
    reveal_strlit("*mut ");
    reveal_strlit("*const ");
    let inner = trim(t.drop_last());
    if inner == "void"@ {
        assert("*mut c_void"@.take(5) =~= "*mut "@);
    } else if inner == "const void"@ {
        assert("*const c_void"@.take(7) =~= "*const "@);
    } else if starts_with(inner, "const "@) {
        let rest = rust_type(inner.skip("const "@.len() as int));
        assert(("*const "@ + rest).take(7) =~= "*const "@);
    } else {
        let rest = rust_type(inner);
        assert(("*mut "@ + rest).take(5) =~= "*mut "@);
    }
}

/// `rust_type` reads a type only through its trimmed form.
pub proof fn lemma_rust_type_trim(x: Seq<char>, y: Seq<char>)
    requires
        trim(x) == trim(y),
    ensures
        rust_type(x) == rust_type(y),
{
}

/// `c_type_to_rust` drops a leading `const` from a type that is not a
/// pointer: `const T` is spelled as `T` is.
pub proof fn law_c_type_to_rust_drops_const(t: Seq<char>)
    requires
        trim(t).len() > 0,
        !ends_with(trim(t), seq!['*']),
    ensures
        rust_type("const "@ + t) == rust_type(t),
{
    reveal_strlit("const ");
    let e: Seq<char> = seq![];
    let (p, q) = lemma_trim_split(t);
    let tt = trim(t);
    if tt.last() == '*' {
        assert(tt.skip(tt.len() - 1) =~= seq!['*']);
    }
    let u = "const "@ + t;
    let m = "const "@ + p + tt;
    assert(u =~= e + m + q);
    assert(m[0] == 'c');
    assert(m.last() == tt.last());
    lemma_trim_frame(e, m, q);
    assert(trim(u) == m);
    lemma_scalar_names_shape(m);
    assert(scalar_rust_name(m) is None);
    if ends_with(m, seq!['*']) {
        assert(m.skip(m.len() - 1)[0] == m.last());
    }
    assert(m.take(6) =~= "const "@);
    assert(m.skip(6) =~= p + tt + e);
    lemma_trim_frame(p, tt, e);
    lemma_rust_type_trim(p + tt + e, t);
}

/// `c_type_to_rust` spells a pointer to a type that is neither `void` nor
/// `const`-qualified as `*mut` of that type's spelling.
pub proof fn law_c_type_to_rust_pointer_is_mut(t: Seq<char>)
    requires
        trim(t) != "void"@,
        !starts_with(trim(t), "const "@),
    ensures
        rust_type(t + seq!['*']) == "*mut "@ + rust_type(t),
{
    reveal_strlit("const ");
    reveal_strlit("const void");
    let e: Seq<char> = seq![];
    let star: Seq<char> = seq!['*'];
    let (p, q) = lemma_trim_split(t);
    let tt = trim(t);
    let v = t + star;
    let x = if tt.len() > 0 { tt + q } else { e };
    let a = if tt.len() > 0 { p } else { t };
    if tt.len() == 0 {
        assert(t =~= p + q);
        assert forall|k: int| 0 <= k < t.len() implies is_ws(#[trigger] t[k]) by {
            if k < p.len() {
                assert(t[k] == p[k]);
            } else {
                assert(t[k] == q[k - p.len()]);
            }
        }
        assert(x + star =~= star);
    } else {
        assert((x + star)[0] == tt[0]);
    }
    assert(v =~= a + (x + star) + e);
    lemma_trim_frame(a, x + star, e);
    let w = trim(v);
    assert(w == x + star);
    lemma_scalar_names_shape(w);
    assert(scalar_rust_name(w) is None);
    assert(w.skip(w.len() - 1) =~= star);
    assert(w.drop_last() =~= x);
    if tt.len() > 0 {
        assert(x =~= e + tt + q);
        lemma_trim_frame(e, tt, q);
    } else {
        assert(trim(e) == e);
    }
    assert(trim(x) == tt);
    assert("const void"@.take(6) =~= "const "@);
    assert(tt != "const void"@);
    assert(tt =~= e + tt + e);
    lemma_trim_frame(e, tt, e);
    lemma_rust_type_trim(tt, t);
}

/// The widths of the fixed-width C integer types, in bits.
pub open spec fn is_fixed_width(bits: nat) -> bool {
    bits == 8 || bits == 16 || bits == 32 || bits == 64
}

/// The C name of a fixed-width integer type: `intN_t`, or `uintN_t` when
/// unsigned.
pub open spec fn c_fixed_int_name(signed: bool, bits: nat) -> Seq<char> {
    (if signed { "int"@ } else { "uint"@ }) + decimal(bits) + "_t"@
}

/// The Rust name of a fixed-width integer type: `iN`, or `uN` when unsigned.
pub open spec fn rust_fixed_int_name(signed: bool, bits: nat) -> Seq<char> {
    (if signed { "i"@ } else { "u"@ }) + decimal(bits)
}

pub proof fn lemma_decimal_widths(bits: nat)
    requires
        is_fixed_width(bits),
    ensures
        bits == 8 ==> decimal(bits) == seq!['8'],
        bits == 16 ==> decimal(bits) == seq!['1', '6'],
        bits == 32 ==> decimal(bits) == seq!['3', '2'],
        bits == 64 ==> decimal(bits) == seq!['6', '4'],
{
    reveal_with_fuel(decimal, 3);
    if bits == 16 {
        assert(decimal(1) == seq!['1']);
        assert(decimal(16) =~= seq!['1', '6']);
    } else if bits == 32 {
        assert(decimal(3) == seq!['3']);
        assert(decimal(32) =~= seq!['3', '2']);
    } else if bits == 64 {
        assert(decimal(6) == seq!['6']);
        assert(decimal(64) =~= seq!['6', '4']);
    }
}

/// A fixed-width C integer type keeps its width and signedness in Rust:
/// `intN_t` is spelled `iN` and `uintN_t` is spelled `uN`, and a pointer to
/// one is a `*mut` of that Rust integer.
pub proof fn law_fixed_width_integers_keep_width(signed: bool, bits: nat)
    requires
        is_fixed_width(bits),
    ensures
        rust_type(c_fixed_int_name(signed, bits)) == rust_fixed_int_name(signed, bits),
        rust_type(c_fixed_int_name(signed, bits) + seq!['*']) == "*mut "@ + rust_fixed_int_name(signed, bits),
{
    lemma_decimal_widths(bits);
    reveal_strlit("int");
    reveal_strlit("uint");
    reveal_strlit("i");
    reveal_strlit("u");
    reveal_strlit("_t");
    reveal_strlit("int8_t");
    reveal_strlit("int16_t");
    reveal_strlit("int32_t");
    reveal_strlit("int64_t");
    reveal_strlit("uint8_t");
    reveal_strlit("uint16_t");
    reveal_strlit("uint32_t");
    reveal_strlit("uint64_t");
    reveal_strlit("i8");
    reveal_strlit("i16");
    reveal_strlit("i32");
    reveal_strlit("i64");
    reveal_strlit("u8");
    reveal_strlit("u16");
    reveal_strlit("u32");
    reveal_strlit("u64");
    let c = c_fixed_int_name(signed, bits);
    let e: Seq<char> = seq![];
    assert(c =~= e + c + e);
    lemma_trim_frame(e, c, e);
    assert(trim(c) == c);
    lemma_fixed_int_scalar(signed, bits);
    assert(c.len() >= 5 && c[0] != 'c');
    law_c_type_to_rust_pointer_is_mut(c);
}

pub proof fn lemma_fixed_int_scalar(signed: bool, bits: nat)
    requires
        is_fixed_width(bits),
    ensures
        scalar_rust_name(c_fixed_int_name(signed, bits)) == Some(rust_fixed_int_name(signed, bits)),
        c_fixed_int_name(signed, bits) != "void"@,
        !starts_with(c_fixed_int_name(signed, bits), "const "@),
{
    lemma_decimal_widths(bits);
    reveal_strlit("int");
    reveal_strlit("uint");
    reveal_strlit("i");
    reveal_strlit("u");
    reveal_strlit("_t");
    reveal_strlit("void");
    reveal_strlit("const ");
    lemma_scalar_literals();
    let c = c_fixed_int_name(signed, bits);
    if signed {
        if bits == 8 {
            assert(c =~= "int8_t"@);
            assert(rust_fixed_int_name(signed, bits) =~= "i8"@);
        } else if bits == 16 {
            assert(c =~= "int16_t"@);
            assert(rust_fixed_int_name(signed, bits) =~= "i16"@);
        } else if bits == 32 {
            assert(c =~= "int32_t"@);
            assert(rust_fixed_int_name(signed, bits) =~= "i32"@);
        } else {
            assert(c =~= "int64_t"@);
            assert(rust_fixed_int_name(signed, bits) =~= "i64"@);
        }
    } else {
        if bits == 8 {
            assert(c =~= "uint8_t"@);
            assert(rust_fixed_int_name(signed, bits) =~= "u8"@);
        } else if bits == 16 {
            assert(c =~= "uint16_t"@);
            assert(rust_fixed_int_name(signed, bits) =~= "u16"@);
        } else if bits == 32 {
            assert(c =~= "uint32_t"@);
            assert(rust_fixed_int_name(signed, bits) =~= "u32"@);
        } else {
            assert(c =~= "uint64_t"@);
            assert(rust_fixed_int_name(signed, bits) =~= "u64"@);
        }
    }
    assert(c[0] != 'c');
    if starts_with(c, "const "@) {
        assert(c.take(6)[0] == c[0]);
        assert("const "@[0] == 'c');
    }
}

pub proof fn lemma_scalar_literals()
    ensures
        "void"@ == seq!['v', 'o', 'i', 'd'],
        "int"@ == seq!['i', 'n', 't'],
        "unsigned int"@ == seq!['u', 'n', 's', 'i', 'g', 'n', 'e', 'd', ' ', 'i', 'n', 't'],
        "uint"@ == seq!['u', 'i', 'n', 't'],
        "long"@ == seq!['l', 'o', 'n', 'g'],
        "unsigned long"@ == seq!['u', 'n', 's', 'i', 'g', 'n', 'e', 'd', ' ', 'l', 'o', 'n', 'g'],
        "ulong"@ == seq!['u', 'l', 'o', 'n', 'g'],
        "long long"@ == seq!['l', 'o', 'n', 'g', ' ', 'l', 'o', 'n', 'g'],
        "unsigned long long"@ == seq!['u', 'n', 's', 'i', 'g', 'n', 'e', 'd', ' ', 'l', 'o', 'n', 'g', ' ', 'l', 'o', 'n', 'g'],
        "short"@ == seq!['s', 'h', 'o', 'r', 't'],
        "unsigned short"@ == seq!['u', 'n', 's', 'i', 'g', 'n', 'e', 'd', ' ', 's', 'h', 'o', 'r', 't'],
        "ushort"@ == seq!['u', 's', 'h', 'o', 'r', 't'],
        "char"@ == seq!['c', 'h', 'a', 'r'],
        "unsigned char"@ == seq!['u', 'n', 's', 'i', 'g', 'n', 'e', 'd', ' ', 'c', 'h', 'a', 'r'],
        "uchar"@ == seq!['u', 'c', 'h', 'a', 'r'],
        "signed char"@ == seq!['s', 'i', 'g', 'n', 'e', 'd', ' ', 'c', 'h', 'a', 'r'],
        "float"@ == seq!['f', 'l', 'o', 'a', 't'],
        "double"@ == seq!['d', 'o', 'u', 'b', 'l', 'e'],
        "size_t"@ == seq!['s', 'i', 'z', 'e', '_', 't'],
        "ssize_t"@ == seq!['s', 's', 'i', 'z', 'e', '_', 't'],
        "bool"@ == seq!['b', 'o', 'o', 'l'],
        "_Bool"@ == seq!['_', 'B', 'o', 'o', 'l'],
        "uint8_t"@ == seq!['u', 'i', 'n', 't', '8', '_', 't'],
        "uint16_t"@ == seq!['u', 'i', 'n', 't', '1', '6', '_', 't'],
        "uint32_t"@ == seq!['u', 'i', 'n', 't', '3', '2', '_', 't'],
        "uint64_t"@ == seq!['u', 'i', 'n', 't', '6', '4', '_', 't'],
        "int8_t"@ == seq!['i', 'n', 't', '8', '_', 't'],
        "int16_t"@ == seq!['i', 'n', 't', '1', '6', '_', 't'],
        "int32_t"@ == seq!['i', 'n', 't', '3', '2', '_', 't'],
        "int64_t"@ == seq!['i', 'n', 't', '6', '4', '_', 't'],
        "()"@ == seq!['(', ')'],
        "bool"@ == seq!['b', 'o', 'o', 'l'],
        "c_char"@ == seq!['c', '_', 'c', 'h', 'a', 'r'],
        "c_double"@ == seq!['c', '_', 'd', 'o', 'u', 'b', 'l', 'e'],
        "c_float"@ == seq!['c', '_', 'f', 'l', 'o', 'a', 't'],
        "c_int"@ == seq!['c', '_', 'i', 'n', 't'],
        "c_long"@ == seq!['c', '_', 'l', 'o', 'n', 'g'],
        "c_longlong"@ == seq!['c', '_', 'l', 'o', 'n', 'g', 'l', 'o', 'n', 'g'],
        "c_schar"@ == seq!['c', '_', 's', 'c', 'h', 'a', 'r'],
        "c_short"@ == seq!['c', '_', 's', 'h', 'o', 'r', 't'],
        "c_uchar"@ == seq!['c', '_', 'u', 'c', 'h', 'a', 'r'],
        "c_uint"@ == seq!['c', '_', 'u', 'i', 'n', 't'],
        "c_ulong"@ == seq!['c', '_', 'u', 'l', 'o', 'n', 'g'],
        "c_ulonglong"@ == seq!['c', '_', 'u', 'l', 'o', 'n', 'g', 'l', 'o', 'n', 'g'],
        "c_ushort"@ == seq!['c', '_', 'u', 's', 'h', 'o', 'r', 't'],
        "i16"@ == seq!['i', '1', '6'],
        "i32"@ == seq!['i', '3', '2'],
        "i64"@ == seq!['i', '6', '4'],
        "i8"@ == seq!['i', '8'],
        "isize"@ == seq!['i', 's', 'i', 'z', 'e'],
        "u16"@ == seq!['u', '1', '6'],
        "u32"@ == seq!['u', '3', '2'],
        "u64"@ == seq!['u', '6', '4'],
        "u8"@ == seq!['u', '8'],
        "usize"@ == seq!['u', 's', 'i', 'z', 'e'],
{
    reveal_strlit("void");
    reveal_strlit("int");
    reveal_strlit("unsigned int");
    reveal_strlit("uint");
    reveal_strlit("long");
    reveal_strlit("unsigned long");
    reveal_strlit("ulong");
    reveal_strlit("long long");
    reveal_strlit("unsigned long long");
    reveal_strlit("short");
    reveal_strlit("unsigned short");
    reveal_strlit("ushort");
    reveal_strlit("char");
    reveal_strlit("unsigned char");
    reveal_strlit("uchar");
    reveal_strlit("signed char");
    reveal_strlit("float");
    reveal_strlit("double");
    reveal_strlit("size_t");
    reveal_strlit("ssize_t");
    reveal_strlit("bool");
    reveal_strlit("_Bool");
    reveal_strlit("uint8_t");
    reveal_strlit("uint16_t");
    reveal_strlit("uint32_t");
    reveal_strlit("uint64_t");
    reveal_strlit("int8_t");
    reveal_strlit("int16_t");
    reveal_strlit("int32_t");
    reveal_strlit("int64_t");
    reveal_strlit("()");
    reveal_strlit("bool");
    reveal_strlit("c_char");
    reveal_strlit("c_double");
    reveal_strlit("c_float");
    reveal_strlit("c_int");
    reveal_strlit("c_long");
    reveal_strlit("c_longlong");
    reveal_strlit("c_schar");
    reveal_strlit("c_short");
    reveal_strlit("c_uchar");
    reveal_strlit("c_uint");
    reveal_strlit("c_ulong");
    reveal_strlit("c_ulonglong");
    reveal_strlit("c_ushort");
    reveal_strlit("i16");
    reveal_strlit("i32");
    reveal_strlit("i64");
    reveal_strlit("i8");
    reveal_strlit("isize");
    reveal_strlit("u16");
    reveal_strlit("u32");
    reveal_strlit("u64");
    reveal_strlit("u8");
    reveal_strlit("usize");
    assert("void"@ =~= seq!['v', 'o', 'i', 'd']);
    assert("int"@ =~= seq!['i', 'n', 't']);
    assert("unsigned int"@ =~= seq!['u', 'n', 's', 'i', 'g', 'n', 'e', 'd', ' ', 'i', 'n', 't']);
    assert("uint"@ =~= seq!['u', 'i', 'n', 't']);
    assert("long"@ =~= seq!['l', 'o', 'n', 'g']);
    assert("unsigned long"@ =~= seq!['u', 'n', 's', 'i', 'g', 'n', 'e', 'd', ' ', 'l', 'o', 'n', 'g']);
    assert("ulong"@ =~= seq!['u', 'l', 'o', 'n', 'g']);
    assert("long long"@ =~= seq!['l', 'o', 'n', 'g', ' ', 'l', 'o', 'n', 'g']);
    assert("unsigned long long"@ =~= seq!['u', 'n', 's', 'i', 'g', 'n', 'e', 'd', ' ', 'l', 'o', 'n', 'g', ' ', 'l', 'o', 'n', 'g']);
    assert("short"@ =~= seq!['s', 'h', 'o', 'r', 't']);
    assert("unsigned short"@ =~= seq!['u', 'n', 's', 'i', 'g', 'n', 'e', 'd', ' ', 's', 'h', 'o', 'r', 't']);
    assert("ushort"@ =~= seq!['u', 's', 'h', 'o', 'r', 't']);
    assert("char"@ =~= seq!['c', 'h', 'a', 'r']);
    assert("unsigned char"@ =~= seq!['u', 'n', 's', 'i', 'g', 'n', 'e', 'd', ' ', 'c', 'h', 'a', 'r']);
    assert("uchar"@ =~= seq!['u', 'c', 'h', 'a', 'r']);
    assert("signed char"@ =~= seq!['s', 'i', 'g', 'n', 'e', 'd', ' ', 'c', 'h', 'a', 'r']);
    assert("float"@ =~= seq!['f', 'l', 'o', 'a', 't']);
    assert("double"@ =~= seq!['d', 'o', 'u', 'b', 'l', 'e']);
    assert("size_t"@ =~= seq!['s', 'i', 'z', 'e', '_', 't']);
    assert("ssize_t"@ =~= seq!['s', 's', 'i', 'z', 'e', '_', 't']);
    assert("bool"@ =~= seq!['b', 'o', 'o', 'l']);
    assert("_Bool"@ =~= seq!['_', 'B', 'o', 'o', 'l']);
    assert("uint8_t"@ =~= seq!['u', 'i', 'n', 't', '8', '_', 't']);
    assert("uint16_t"@ =~= seq!['u', 'i', 'n', 't', '1', '6', '_', 't']);
    assert("uint32_t"@ =~= seq!['u', 'i', 'n', 't', '3', '2', '_', 't']);
    assert("uint64_t"@ =~= seq!['u', 'i', 'n', 't', '6', '4', '_', 't']);
    assert("int8_t"@ =~= seq!['i', 'n', 't', '8', '_', 't']);
    assert("int16_t"@ =~= seq!['i', 'n', 't', '1', '6', '_', 't']);
    assert("int32_t"@ =~= seq!['i', 'n', 't', '3', '2', '_', 't']);
    assert("int64_t"@ =~= seq!['i', 'n', 't', '6', '4', '_', 't']);
    assert("()"@ =~= seq!['(', ')']);
    assert("bool"@ =~= seq!['b', 'o', 'o', 'l']);
    assert("c_char"@ =~= seq!['c', '_', 'c', 'h', 'a', 'r']);
    assert("c_double"@ =~= seq!['c', '_', 'd', 'o', 'u', 'b', 'l', 'e']);
    assert("c_float"@ =~= seq!['c', '_', 'f', 'l', 'o', 'a', 't']);
    assert("c_int"@ =~= seq!['c', '_', 'i', 'n', 't']);
    assert("c_long"@ =~= seq!['c', '_', 'l', 'o', 'n', 'g']);
    assert("c_longlong"@ =~= seq!['c', '_', 'l', 'o', 'n', 'g', 'l', 'o', 'n', 'g']);
    assert("c_schar"@ =~= seq!['c', '_', 's', 'c', 'h', 'a', 'r']);
    assert("c_short"@ =~= seq!['c', '_', 's', 'h', 'o', 'r', 't']);
    assert("c_uchar"@ =~= seq!['c', '_', 'u', 'c', 'h', 'a', 'r']);
    assert("c_uint"@ =~= seq!['c', '_', 'u', 'i', 'n', 't']);
    assert("c_ulong"@ =~= seq!['c', '_', 'u', 'l', 'o', 'n', 'g']);
    assert("c_ulonglong"@ =~= seq!['c', '_', 'u', 'l', 'o', 'n', 'g', 'l', 'o', 'n', 'g']);
    assert("c_ushort"@ =~= seq!['c', '_', 'u', 's', 'h', 'o', 'r', 't']);
    assert("i16"@ =~= seq!['i', '1', '6']);
    assert("i32"@ =~= seq!['i', '3', '2']);
    assert("i64"@ =~= seq!['i', '6', '4']);
    assert("i8"@ =~= seq!['i', '8']);
    assert("isize"@ =~= seq!['i', 's', 'i', 'z', 'e']);
    assert("u16"@ =~= seq!['u', '1', '6']);
    assert("u32"@ =~= seq!['u', '3', '2']);
    assert("u64"@ =~= seq!['u', '6', '4']);
    assert("u8"@ =~= seq!['u', '8']);
    assert("usize"@ =~= seq!['u', 's', 'i', 'z', 'e']);
}

/// A C scalar type written without surrounding whitespace is spelled as its
/// Rust scalar name.
proof fn lemma_rust_type_of_scalar(t: Seq<char>)
    requires
        scalar_rust_name(t) is Some,
        t.len() > 0,
        !is_ws(t[0]),
        !is_ws(t.last()),
    ensures
        rust_type(t) == scalar_rust_name(t)->0,
{
    let e: Seq<char> = seq![];
    assert(t =~= e + t + e);
    lemma_trim_frame(e, t, e);
}

/// The base names of C's plain integer types, and their `std::os::raw` names.
pub open spec fn c_int_bases() -> Seq<(Seq<char>, Seq<char>)> {
    seq![("int"@, "int"@), ("long"@, "long"@), ("short"@, "short"@), ("char"@, "char"@), ("long long"@, "longlong"@)]
}

/// C's plain integer types keep their meaning in Rust: `T` is spelled
/// `c_T` and `unsigned T` is spelled `c_uT` (with `long long` as
/// `longlong`), the `std::os::raw` types of the same C type.
pub proof fn law_plain_integers_keep_c_meaning(k: int, unsigned: bool)
    requires
        0 <= k < c_int_bases().len(),
    ensures
        rust_type((if unsigned { "unsigned "@ } else { seq![] }) + c_int_bases()[k].0) == (if unsigned {
            "c_u"@
        } else {
            "c_"@
        }) + c_int_bases()[k].1,
{
    lemma_scalar_literals();
    reveal_strlit("unsigned ");
    reveal_strlit("c_u");
    reveal_strlit("c_");
    reveal_strlit("longlong");
    let t = (if unsigned { "unsigned "@ } else { seq![] }) + c_int_bases()[k].0;
    let r = (if unsigned { "c_u"@ } else { "c_"@ }) + c_int_bases()[k].1;
    if unsigned {
        if k == 0 {
            assert(t =~= "unsigned int"@);
            assert(r =~= "c_uint"@);
        } else if k == 1 {
            assert(t =~= "unsigned long"@);
            assert(r =~= "c_ulong"@);
        } else if k == 2 {
            assert(t =~= "unsigned short"@);
            assert(r =~= "c_ushort"@);
        } else if k == 3 {
            assert(t =~= "unsigned char"@);
            assert(r =~= "c_uchar"@);
        } else {
            assert(t =~= "unsigned long long"@);
            assert(r =~= "c_ulonglong"@);
        }
    } else {
        if k == 0 {
            assert(t =~= "int"@);
            assert(r =~= "c_int"@);
        } else if k == 1 {
            assert(t =~= "long"@);
            assert(r =~= "c_long"@);
        } else if k == 2 {
            assert(t =~= "short"@);
            assert(r =~= "c_short"@);
        } else if k == 3 {
            assert(t =~= "char"@);
            assert(r =~= "c_char"@);
        } else {
            assert(t =~= "long long"@);
            assert(r =~= "c_longlong"@);
        }
    }
    lemma_rust_type_of_scalar(t);
}

} // verus!
