//! Character-level text utilities with specifications over `Seq<char>`.
//!
//! Text is handled as `Vec<char>` inside the library; the spec functions here
//! describe the classic string operations (trim, prefix tests, searching,
//! splitting into lines and words) on sequences of characters.

use vstd::prelude::*;

verus! {

broadcast use vstd::string::group_string_axioms;

/// The views of a sequence of character vectors.
pub open spec fn views(v: Seq<Vec<char>>) -> Seq<Seq<char>> {
    v.map_values(|x: Vec<char>| x@)
}

/// Unicode `White_Space`, as `char::is_whitespace` decides it.
pub open spec fn is_ws(c: char) -> bool {
    ||| c == ' ' || c == '\t' || c == '\n' || c == '\r'
    ||| c == '\u{0B}' || c == '\u{0C}' || c == '\u{85}' || c == '\u{A0}'
    ||| c == '\u{1680}' || ('\u{2000}' <= c && c <= '\u{200A}')
    ||| c == '\u{2028}' || c == '\u{2029}' || c == '\u{202F}' || c == '\u{205F}'
    ||| c == '\u{3000}'
}

/// A control character (general category `Cc`), as `char::is_control` decides it.
pub open spec fn is_control(c: char) -> bool {
    c <= '\u{1F}' || ('\u{7F}' <= c && c <= '\u{9F}')
}

/// Whether `c` is a control character.
pub fn is_control_char(c: char) -> (r: bool)
    ensures
        r == is_control(c),
{
    c <= '\u{1F}' || ('\u{7F}' <= c && c <= '\u{9F}')
}

/// `s` without its leading whitespace.
pub open spec fn trim_start(s: Seq<char>) -> Seq<char>
    decreases s.len(),
{
    if s.len() > 0 && is_ws(s[0]) {
        trim_start(s.drop_first())
    } else {
        s
    }
}

/// `s` without its trailing whitespace.
pub open spec fn trim_end(s: Seq<char>) -> Seq<char>
    decreases s.len(),
{
    if s.len() > 0 && is_ws(s.last()) {
        trim_end(s.drop_last())
    } else {
        s
    }
}

/// `s` without leading and trailing whitespace.
pub open spec fn trim(s: Seq<char>) -> Seq<char> {
    trim_end(trim_start(s))
}

pub open spec fn starts_with(s: Seq<char>, p: Seq<char>) -> bool {
    p.len() <= s.len() && s.take(p.len() as int) == p
}

pub open spec fn ends_with(s: Seq<char>, p: Seq<char>) -> bool {
    p.len() <= s.len() && s.skip(s.len() - p.len()) == p
}

/// `p` occurs in `s` starting at position `i`.
pub open spec fn occurs_at(s: Seq<char>, p: Seq<char>, i: int) -> bool {
    0 <= i && i + p.len() <= s.len() && s.subrange(i, i + p.len()) == p
}

/// `p` occurs somewhere in `s`.
pub open spec fn contains_seq(s: Seq<char>, p: Seq<char>) -> bool {
    exists|i: int| occurs_at(s, p, i)
}

/// The first position of `c` in `s`.
pub open spec fn find_char(s: Seq<char>, c: char) -> Option<int>
    decreases s.len(),
{
    if s.len() == 0 {
        None
    } else if s[0] == c {
        Some(0)
    } else {
        match find_char(s.drop_first(), c) {
            Some(i) => Some(i + 1),
            None => None,
        }
    }
}

/// The last position of `c` in `s`.
pub open spec fn rfind_char(s: Seq<char>, c: char) -> Option<int>
    decreases s.len(),
{
    if s.len() == 0 {
        None
    } else if s.last() == c {
        Some(s.len() - 1)
    } else {
        rfind_char(s.drop_last(), c)
    }
}

pub proof fn lemma_find_char(s: Seq<char>, c: char)
    ensures
        find_char(s, c) matches Some(i) ==> 0 <= i < s.len() && s[i] == c && forall|j: int|
            0 <= j < i ==> s[j] != c,
        find_char(s, c) is None ==> forall|j: int| 0 <= j < s.len() ==> s[j] != c,
    decreases s.len(),
{
    if s.len() > 0 && s[0] != c {
        lemma_find_char(s.drop_first(), c);
        if let Some(i) = find_char(s.drop_first(), c) {
            assert forall|j: int| 0 <= j < i + 1 implies s[j] != c by {
                if j > 0 {
                    assert(s[j] == s.drop_first()[j - 1]);
                }
            }
        } else {
            assert forall|j: int| 0 <= j < s.len() implies s[j] != c by {
                if j > 0 {
                    assert(s[j] == s.drop_first()[j - 1]);
                }
            }
        }
    }
}

pub proof fn lemma_rfind_char(s: Seq<char>, c: char)
    ensures
        rfind_char(s, c) matches Some(i) ==> 0 <= i < s.len() && s[i] == c && forall|j: int|
            i < j < s.len() ==> s[j] != c,
        rfind_char(s, c) is None ==> forall|j: int| 0 <= j < s.len() ==> s[j] != c,
    decreases s.len(),
{
    if s.len() > 0 && s.last() != c {
        lemma_rfind_char(s.drop_last(), c);
        assert forall|j: int| 0 <= j < s.len() - 1 implies s[j] == s.drop_last()[j] by {}
    }
}

/// The characters of `s`, in order.
pub fn chars_of(s: &str) -> (r: Vec<char>)
    ensures
        r@ == s@,
{
    let mut out: Vec<char> = Vec::new();
    for c in it: s.chars()
        invariant
            out@ == it.seq().take(it.index() as int),
            it.seq() == s@,
    {
        out.push(c);
    }
    out
}

/// Appends one character to a string (`String::push`).
#[verifier::external_body]
fn push_char(s: &mut String, c: char)
    ensures
        final(s)@ == old(s)@.push(c),
{
    s.push(c);
}

/// Appends the characters of `cs` to `out`.
pub fn push_chars(out: &mut String, cs: &[char])
    ensures
        final(out)@ == old(out)@ + cs@,
{
    let ghost start = out@;
    for i in 0..cs.len()
        invariant
            out@ == start + cs@.take(i as int),
    {
        push_char(out, cs[i]);
        assert(cs@.take(i + 1) == cs@.take(i as int).push(cs@[i as int]));
    }
    assert(cs@.take(cs@.len() as int) == cs@);
}

/// A string holding exactly the characters of `cs`.
pub fn string_of(cs: &[char]) -> (r: String)
    ensures
        r@ == cs@,
{
    let mut out = String::new();
    push_chars(&mut out, cs);
    out
}

/// A string holding the characters of a literal.
pub fn string_from(s: &str) -> (r: String)
    ensures
        r@ == s@,
{
    let cs = chars_of(s);
    string_of(cs.as_slice())
}

/// Appends the characters of `s` to `out`.
pub fn push_str(out: &mut String, s: &str)
    ensures
        final(out)@ == old(out)@ + s@,
{
    let cs = chars_of(s);
    push_chars(out, cs.as_slice());
}

/// Whether `c` is whitespace.
pub fn is_whitespace(c: char) -> (r: bool)
    ensures
        r == is_ws(c),
{
    c == ' ' || c == '\t' || c == '\n' || c == '\r' || c == '\u{0B}' || c == '\u{0C}' || c
        == '\u{85}' || c == '\u{A0}' || c == '\u{1680}' || ('\u{2000}' <= c && c <= '\u{200A}')
        || c == '\u{2028}' || c == '\u{2029}' || c == '\u{202F}' || c == '\u{205F}' || c
        == '\u{3000}'
}

/// Copies `cs[from..to]`.
pub fn slice_chars(cs: &[char], from: usize, to: usize) -> (r: Vec<char>)
    requires
        from <= to <= cs@.len(),
    ensures
        r@ == cs@.subrange(from as int, to as int),
{
    let mut out: Vec<char> = Vec::new();
    let mut i = from;
    while i < to
        invariant
            from <= i <= to <= cs@.len(),
            out@ == cs@.subrange(from as int, i as int),
        decreases to - i,
    {
        out.push(cs[i]);
        assert(cs@.subrange(from as int, i + 1) == cs@.subrange(from as int, i as int).push(
            cs@[i as int],
        ));
        i = i + 1;
    }
    out
}

/// `cs` without leading and trailing whitespace.
pub fn trim_chars(cs: &[char]) -> (r: Vec<char>)
    ensures
        r@ == trim(cs@),
{
    let n = cs.len();
    let mut i: usize = 0;
    assert(cs@.skip(0) == cs@);
    while i < n && is_whitespace(cs[i])
        invariant
            i <= n == cs@.len(),
            trim_start(cs@) == trim_start(cs@.skip(i as int)),
        decreases n - i,
    {
        assert(cs@.skip(i as int).drop_first() == cs@.skip(i + 1));
        i = i + 1;
    }
    let ghost rest = cs@.skip(i as int);
    assert(trim_start(rest) == rest);
    assert(cs@.subrange(i as int, n as int) == rest);
    let mut j: usize = n;
    while j > i && is_whitespace(cs[j - 1])
        invariant
            i <= j <= n == cs@.len(),
            rest == cs@.skip(i as int),
            trim_end(rest) == trim_end(cs@.subrange(i as int, j as int)),
        decreases j,
    {
        assert(cs@.subrange(i as int, j as int).drop_last() == cs@.subrange(i as int, j - 1));
        j = j - 1;
    }
    assert(cs@.subrange(i as int, n as int) == rest);
    slice_chars(cs, i, j)
}

/// Whether `cs` begins with the characters of `p`.
pub fn starts_with_chars(cs: &[char], p: &[char]) -> (r: bool)
    ensures
        r == starts_with(cs@, p@),
{
    if p.len() > cs.len() {
        return false;
    }
    let mut i: usize = 0;
    while i < p.len()
        invariant
            i <= p@.len() <= cs@.len(),
            forall|k: int| 0 <= k < i ==> cs@[k] == p@[k],
        decreases p.len() - i,
    {
        if cs[i] != p[i] {
            return false;
        }
        i = i + 1;
    }
    assert(cs@.take(p@.len() as int) == p@);
    true
}

/// Whether `cs` begins with `p`.
pub fn starts_with_str(cs: &[char], p: &str) -> (r: bool)
    ensures
        r == starts_with(cs@, p@),
{
    let pc = chars_of(p);
    starts_with_chars(cs, pc.as_slice())
}

/// Whether `cs` ends with the characters of `p`.
pub fn ends_with_chars(cs: &[char], p: &[char]) -> (r: bool)
    ensures
        r == ends_with(cs@, p@),
{
    if p.len() > cs.len() {
        return false;
    }
    let n = cs.len();
    let off = n - p.len();
    let mut i: usize = 0;
    while i < p.len()
        invariant
            n == cs@.len(),
            i <= p@.len() <= cs@.len(),
            off == cs@.len() - p@.len(),
            forall|k: int| 0 <= k < i ==> cs@[off + k] == p@[k],
        decreases p.len() - i,
    {
        if cs[off + i] != p[i] {
            assert(cs@.skip(off as int)[i as int] == cs@[off + i]);
            return false;
        }
        i = i + 1;
    }
    assert(cs@.skip(off as int) == p@);
    true
}

/// Whether `cs` ends with the character `c`.
pub fn ends_with_char(cs: &[char], c: char) -> (r: bool)
    ensures
        r == ends_with(cs@, seq![c]),
{
    if cs.len() == 0 {
        false
    } else {
        let r = cs[cs.len() - 1] == c;
        assert(r ==> cs@.skip(cs@.len() - 1) == seq![c]);
        assert(!r ==> cs@.skip(cs@.len() - 1)[0] != c);
        r
    }
}

/// Whether `cs` begins with the character `c`.
pub fn starts_with_char(cs: &[char], c: char) -> (r: bool)
    ensures
        r == starts_with(cs@, seq![c]),
{
    if cs.len() == 0 {
        false
    } else {
        let r = cs[0] == c;
        assert(r ==> cs@.take(1) == seq![c]);
        assert(!r ==> cs@.take(1)[0] != c);
        r
    }
}

/// Whether `cs` and `s` hold the same characters.
pub fn eq_str(cs: &[char], s: &str) -> (r: bool)
    ensures
        r == (cs@ == s@),
{
    let sc = chars_of(s);
    if sc.len() != cs.len() {
        return false;
    }
    let r = starts_with_chars(cs, sc.as_slice());
    assert(cs@.take(cs@.len() as int) == cs@);
    r
}

/// The first position of `c` in `cs`.
pub fn find_char_in(cs: &[char], c: char) -> (r: Option<usize>)
    ensures
        r matches Some(i) ==> find_char(cs@, c) == Some(i as int),
        r is None ==> find_char(cs@, c) is None,
{
    proof {
        lemma_find_char(cs@, c);
    }
    let mut i: usize = 0;
    while i < cs.len()
        invariant
            i <= cs@.len(),
            forall|k: int| 0 <= k < i ==> cs@[k] != c,
            find_char(cs@, c) matches Some(f) ==> 0 <= f < cs@.len() && cs@[f] == c && forall|
                j: int,
            |
                0 <= j < f ==> cs@[j] != c,
            find_char(cs@, c) is None ==> forall|j: int| 0 <= j < cs@.len() ==> cs@[j] != c,
        decreases cs.len() - i,
    {
        if cs[i] == c {
            proof {
                if let Some(f) = find_char(cs@, c) {
                    if f > i {
                        assert(cs@[i as int] != c);
                    }
                }
            }
            return Some(i);
        }
        i = i + 1;
    }
    None
}

/// The last position of `c` in `cs`.
pub fn rfind_char_in(cs: &[char], c: char) -> (r: Option<usize>)
    ensures
        r matches Some(i) ==> rfind_char(cs@, c) == Some(i as int),
        r is None ==> rfind_char(cs@, c) is None,
{
    proof {
        lemma_rfind_char(cs@, c);
    }
    let mut i: usize = cs.len();
    while i > 0
        invariant
            i <= cs@.len(),
            forall|k: int| i <= k < cs@.len() ==> cs@[k] != c,
            rfind_char(cs@, c) matches Some(f) ==> 0 <= f < cs@.len() && cs@[f] == c && forall|
                j: int,
            |
                f < j < cs@.len() ==> cs@[j] != c,
            rfind_char(cs@, c) is None ==> forall|j: int| 0 <= j < cs@.len() ==> cs@[j] != c,
        decreases i,
    {
        if cs[i - 1] == c {
            proof {
                if let Some(f) = rfind_char(cs@, c) {
                    if f < i - 1 {
                        assert(cs@[i - 1] != c);
                    }
                }
            }
            return Some(i - 1);
        }
        i = i - 1;
    }
    None
}

/// Whether `c` occurs in `cs`.
pub fn contains_char(cs: &[char], c: char) -> (r: bool)
    ensures
        r == cs@.contains(c),
{
    proof {
        lemma_find_char(cs@, c);
    }
    match find_char_in(cs, c) {
        Some(i) => {
            assert(cs@[i as int] == c);
            true
        },
        None => false,
    }
}

/// Whether `p` occurs in `cs` at position `i`.
fn occurs_at_exec(cs: &[char], p: &[char], i: usize) -> (r: bool)
    requires
        i + p@.len() <= cs@.len(),
    ensures
        r == occurs_at(cs@, p@, i as int),
{
    let n = cs.len();
    let mut k: usize = 0;
    while k < p.len()
        invariant
            n == cs@.len(),
            k <= p@.len(),
            i + p@.len() <= cs@.len(),
            forall|m: int| 0 <= m < k ==> cs@[i + m] == p@[m],
        decreases p.len() - k,
    {
        if cs[i + k] != p[k] {
            assert(cs@.subrange(i as int, i + p@.len())[k as int] == cs@[i + k]);
            return false;
        }
        k = k + 1;
    }
    assert(cs@.subrange(i as int, i + p@.len()) == p@);
    true
}

/// Whether `p` occurs in `cs`.
pub fn contains_chars(cs: &[char], p: &[char]) -> (r: bool)
    ensures
        r == contains_seq(cs@, p@),
{
    if p.len() > cs.len() {
        return false;
    }
    if p.len() == 0 {
        assert(cs@.subrange(0, 0) =~= p@);
        assert(occurs_at(cs@, p@, 0));
        return true;
    }
    let n = cs.len();
    let last = n - p.len();
    let mut i: usize = 0;
    while i <= last
        invariant
            n == cs@.len(),
            last == cs@.len() - p@.len(),
            p@.len() > 0,
            i <= last + 1,
            forall|k: int| 0 <= k < i ==> !occurs_at(cs@, p@, k),
        decreases last + 1 - i,
    {
        if occurs_at_exec(cs, p, i) {
            return true;
        }
        i = i + 1;
    }
    assert forall|k: int| !occurs_at(cs@, p@, k) by {
        if 0 <= k && k + p@.len() <= cs@.len() {
            assert(k <= last);
        }
    }
    false
}

/// Whether `p` occurs in `cs`.
pub fn contains_str(cs: &[char], p: &str) -> (r: bool)
    ensures
        r == contains_seq(cs@, p@),
{
    let pc = chars_of(p);
    contains_chars(cs, pc.as_slice())
}


/// `s` with one trailing carriage return removed.
pub open spec fn strip_cr(s: Seq<char>) -> Seq<char> {
    if s.len() > 0 && s.last() == '\r' {
        s.drop_last()
    } else {
        s
    }
}

/// The lines of `s`, as `str::lines` yields them: split after each `'\n'`,
/// with the `'\n'` and a `'\r'` just before it removed, and no empty line
/// after a final `'\n'`.
pub open spec fn lines(s: Seq<char>) -> Seq<Seq<char>>
    decreases s.len(),
{
    if s.len() == 0 {
        seq![]
    } else {
        match find_char(s, '\n') {
            None => seq![s],
            Some(i) => {
                proof {
                    lemma_find_char(s, '\n');
                }
                seq![strip_cr(s.take(i))] + lines(s.skip(i + 1))
            },
        }
    }
}

/// The pieces of `s` between occurrences of `c`, as `str::split` yields them.
pub open spec fn split_char(s: Seq<char>, c: char) -> Seq<Seq<char>>
    decreases s.len(),
{
    match find_char(s, c) {
        None => seq![s],
        Some(i) => {
            proof {
                lemma_find_char(s, c);
            }
            seq![s.take(i)] + split_char(s.skip(i + 1), c)
        },
    }
}

/// The length of the run of non-whitespace characters that begins `s`.
pub open spec fn word_len(s: Seq<char>) -> nat
    decreases s.len(),
{
    if s.len() == 0 || is_ws(s[0]) {
        0
    } else {
        1 + word_len(s.drop_first())
    }
}

pub proof fn lemma_trim_start(s: Seq<char>)
    ensures
        trim_start(s).len() <= s.len(),
        trim_start(s) == s.skip(s.len() - trim_start(s).len()),
        trim_start(s).len() > 0 ==> !is_ws(trim_start(s)[0]),
        forall|k: int| 0 <= k < s.len() - trim_start(s).len() ==> is_ws(#[trigger] s[k]),
    decreases s.len(),
{
    if s.len() > 0 && is_ws(s[0]) {
        lemma_trim_start(s.drop_first());
        assert(s.drop_first().skip(s.drop_first().len() - trim_start(s).len()) == s.skip(
            s.len() - trim_start(s).len(),
        ));
        assert forall|k: int| 0 <= k < s.len() - trim_start(s).len() implies is_ws(
            #[trigger] s[k],
        ) by {
            if k > 0 {
                assert(s[k] == s.drop_first()[k - 1]);
            }
        }
    } else {
        assert(s.skip(0) == s);
    }
}

pub proof fn lemma_word_len(s: Seq<char>)
    ensures
        word_len(s) <= s.len(),
        forall|k: int| 0 <= k < word_len(s) ==> !is_ws(#[trigger] s[k]),
        word_len(s) < s.len() ==> is_ws(s[word_len(s) as int]),
    decreases s.len(),
{
    if s.len() > 0 && !is_ws(s[0]) {
        lemma_word_len(s.drop_first());
        assert forall|k: int| 0 <= k < word_len(s) implies !is_ws(#[trigger] s[k]) by {
            if k > 0 {
                assert(s[k] == s.drop_first()[k - 1]);
            }
        }
    }
}

/// The whitespace-separated words of `s`, as `str::split_whitespace` yields them.
pub open spec fn words(s: Seq<char>) -> Seq<Seq<char>>
    decreases s.len(),
{
    let t = trim_start(s);
    if t.len() == 0 {
        seq![]
    } else {
        proof {
            lemma_trim_start(s);
            lemma_word_len(t);
        }
        seq![t.take(word_len(t) as int)] + words(t.skip(word_len(t) as int))
    }
}

/// The first position of `c` in `cs` at or after `from`.
pub fn find_char_from(cs: &[char], c: char, from: usize) -> (r: Option<usize>)
    requires
        from <= cs@.len(),
    ensures
        r matches Some(i) ==> from <= i && find_char(cs@.skip(from as int), c) == Some(i - from),
        r is None ==> find_char(cs@.skip(from as int), c) is None,
{
    let ghost rest = cs@.skip(from as int);
    proof {
        lemma_find_char(rest, c);
    }
    let n = cs.len();
    let mut i: usize = from;
    while i < n
        invariant
            from <= i <= n == cs@.len(),
            rest == cs@.skip(from as int),
            forall|k: int| from <= k < i ==> cs@[k] != c,
            find_char(rest, c) matches Some(f) ==> 0 <= f < rest.len() && rest[f] == c && forall|
                j: int,
            |
                0 <= j < f ==> rest[j] != c,
            find_char(rest, c) is None ==> forall|j: int| 0 <= j < rest.len() ==> rest[j] != c,
        decreases n - i,
    {
        if cs[i] == c {
            proof {
                assert(rest[i - from] == c);
                if let Some(f) = find_char(rest, c) {
                    if f > i - from {
                        assert(rest[i - from] != c);
                    } else if f < i - from {
                        assert(rest[f] == cs@[from + f]);
                    }
                }
            }
            return Some(i);
        }
        i = i + 1;
    }
    proof {
        if let Some(f) = find_char(rest, c) {
            assert(rest[f] == cs@[from + f]);
        }
    }
    None
}

/// The lines of `cs`, as `str::lines` yields them.
pub fn lines_of(cs: &[char]) -> (r: Vec<Vec<char>>)
    ensures
        views(r@) == lines(cs@),
{
    let n = cs.len();
    let mut out: Vec<Vec<char>> = Vec::new();
    let mut pos: usize = 0;
    assert(cs@.skip(0) == cs@);
    assert(views(out@) =~= Seq::<Seq<char>>::empty());
    while pos < n
        invariant
            pos <= n == cs@.len(),
            views(out@) + lines(cs@.skip(pos as int)) == lines(cs@),
        decreases n - pos,
    {
        let ghost rest = cs@.skip(pos as int);
        let ghost before = views(out@);
        match find_char_from(cs, '\n', pos) {
            None => {
                let line = slice_chars(cs, pos, n);
                assert(line@ == rest);
                assert(lines(rest) == seq![rest]);
                out.push(line);
                assert(views(out@) =~= before.push(rest));
                pos = n;
                assert(cs@.skip(pos as int) =~= Seq::<char>::empty());
                assert(lines(cs@.skip(pos as int)) =~= Seq::<Seq<char>>::empty());
                assert(views(out@) + lines(cs@.skip(pos as int)) =~= before + lines(rest));
            },
            Some(i) => {
                proof {
                    lemma_find_char(rest, '\n');
                }
                let ghost k = i - pos;
                let mut end = i;
                if end > pos && cs[end - 1] == '\r' {
                    end = end - 1;
                }
                let line = slice_chars(cs, pos, end);
                assert(line@ == strip_cr(rest.take(k)));
                out.push(line);
                assert(views(out@) =~= before.push(line@));
                pos = i + 1;
                assert(rest.skip(k + 1) =~= cs@.skip(pos as int));
                assert(lines(rest) == seq![strip_cr(rest.take(k))] + lines(rest.skip(k + 1)));
                assert(views(out@) + lines(cs@.skip(pos as int)) =~= before + lines(rest));
            },
        }
    }
    assert(cs@.skip(n as int) =~= Seq::<char>::empty());
    assert(views(out@) + lines(cs@.skip(n as int)) =~= views(out@));
    out
}

/// The pieces of `cs` between occurrences of `c`, as `str::split` yields them.
pub fn split_char_of(cs: &[char], c: char) -> (r: Vec<Vec<char>>)
    ensures
        views(r@) == split_char(cs@, c),
{
    let n = cs.len();
    let mut out: Vec<Vec<char>> = Vec::new();
    let mut pos: usize = 0;
    assert(cs@.skip(0) == cs@);
    assert(views(out@) =~= Seq::<Seq<char>>::empty());
    loop
        invariant
            pos <= n == cs@.len(),
            views(out@) + split_char(cs@.skip(pos as int), c) == split_char(cs@, c),
        decreases n - pos,
    {
        let ghost rest = cs@.skip(pos as int);
        let ghost before = views(out@);
        match find_char_from(cs, c, pos) {
            None => {
                let piece = slice_chars(cs, pos, n);
                assert(piece@ == rest);
                out.push(piece);
                assert(views(out@) =~= before.push(rest));
                assert(split_char(rest, c) == seq![rest]);
                assert(views(out@) =~= before + split_char(rest, c));
                return out;
            },
            Some(i) => {
                proof {
                    lemma_find_char(rest, c);
                }
                let ghost k = i - pos;
                let piece = slice_chars(cs, pos, i);
                assert(piece@ == rest.take(k));
                out.push(piece);
                assert(views(out@) =~= before.push(piece@));
                pos = i + 1;
                assert(rest.skip(k + 1) =~= cs@.skip(pos as int));
                assert(split_char(rest, c) == seq![rest.take(k)] + split_char(rest.skip(k + 1), c));
                assert(views(out@) + split_char(cs@.skip(pos as int), c) =~= before + split_char(
                    rest,
                    c,
                ));
            },
        }
    }
}

/// The whitespace-separated words of `cs`, as `str::split_whitespace` yields them.
pub fn words_of(cs: &[char]) -> (r: Vec<Vec<char>>)
    ensures
        views(r@) == words(cs@),
{
    let n = cs.len();
    let mut out: Vec<Vec<char>> = Vec::new();
    let mut pos: usize = 0;
    assert(cs@.skip(0) == cs@);
    assert(views(out@) =~= Seq::<Seq<char>>::empty());
    loop
        invariant
            pos <= n == cs@.len(),
            views(out@) + words(cs@.skip(pos as int)) == words(cs@),
        decreases n - pos,
    {
        let ghost rest = cs@.skip(pos as int);
        let ghost before = views(out@);
        proof {
            lemma_trim_start(rest);
        }
        let mut start = pos;
        while start < n && is_whitespace(cs[start])
            invariant
                pos <= start <= n == cs@.len(),
                rest == cs@.skip(pos as int),
                trim_start(rest) == trim_start(cs@.skip(start as int)),
            decreases n - start,
        {
            assert(cs@.skip(start as int).drop_first() =~= cs@.skip(start + 1));
            start = start + 1;
        }
        let ghost t = cs@.skip(start as int);
        assert(trim_start(t) == t);
        if start == n {
            assert(t.len() == 0);
            assert(words(rest) =~= Seq::<Seq<char>>::empty());
            assert(views(out@) =~= before + words(rest));
            return out;
        }
        proof {
            lemma_word_len(t);
        }
        let mut stop = start;
        while stop < n && !is_whitespace(cs[stop])
            invariant
                start <= stop <= n == cs@.len(),
                t == cs@.skip(start as int),
                word_len(t) == (stop - start) + word_len(cs@.skip(stop as int)),
            decreases n - stop,
        {
            assert(cs@.skip(stop as int).drop_first() =~= cs@.skip(stop + 1));
            stop = stop + 1;
        }
        assert(word_len(cs@.skip(stop as int)) == 0);
        let word = slice_chars(cs, start, stop);
        assert(word@ =~= t.take(word_len(t) as int));
        out.push(word);
        assert(views(out@) =~= before.push(word@));
        assert(t.skip(word_len(t) as int) =~= cs@.skip(stop as int));
        assert(words(rest) == seq![t.take(word_len(t) as int)] + words(t.skip(word_len(t) as int)));
        pos = stop;
        assert(views(out@) + words(cs@.skip(pos as int)) =~= before + words(rest));
    }
}

/// `parts` joined with `sep` between consecutive parts.
pub open spec fn join(parts: Seq<Seq<char>>, sep: Seq<char>) -> Seq<char>
    decreases parts.len(),
{
    if parts.len() == 0 {
        seq![]
    } else if parts.len() == 1 {
        parts[0]
    } else {
        join(parts.drop_last(), sep) + sep + parts.last()
    }
}

/// The decimal digits of `n`.
pub open spec fn decimal(n: nat) -> Seq<char>
    decreases n,
{
    if n < 10 {
        seq![digit_char(n)]
    } else {
        decimal(n / 10) + seq![digit_char(n % 10)]
    }
}

pub open spec fn digit_char(d: nat) -> char {
    if d == 0 { '0' }
    else if d == 1 { '1' }
    else if d == 2 { '2' }
    else if d == 3 { '3' }
    else if d == 4 { '4' }
    else if d == 5 { '5' }
    else if d == 6 { '6' }
    else if d == 7 { '7' }
    else if d == 8 { '8' }
    else { '9' }
}

fn digit(d: u64) -> (r: char)
    requires
        d < 10,
    ensures
        r == digit_char(d as nat),
{
    if d == 0 { '0' }
    else if d == 1 { '1' }
    else if d == 2 { '2' }
    else if d == 3 { '3' }
    else if d == 4 { '4' }
    else if d == 5 { '5' }
    else if d == 6 { '6' }
    else if d == 7 { '7' }
    else if d == 8 { '8' }
    else { '9' }
}

/// Appends the decimal digits of `n` to `out`.
pub fn push_decimal(out: &mut String, n: u64)
    ensures
        final(out)@ == old(out)@ + decimal(n as nat),
    decreases n,
{
    if n < 10 {
        push_char(out, digit(n));
    } else {
        push_decimal(out, n / 10);
        push_char(out, digit(n % 10));
        assert(decimal(n as nat) == decimal((n / 10) as nat) + seq![digit_char((n % 10) as nat)]);
    }
}

/// The ASCII lowercase form of a character.
pub open spec fn ascii_lower(c: char) -> char {
    if 'A' <= c && c <= 'Z' {
        ((c as u32) + 32) as char
    } else {
        c
    }
}

/// `s` with each ASCII uppercase letter made lowercase.
pub open spec fn to_ascii_lower(s: Seq<char>) -> Seq<char> {
    s.map_values(|c: char| ascii_lower(c))
}

fn lower_char(c: char) -> (r: char)
    ensures
        r == ascii_lower(c),
{
    if 'A' <= c && c <= 'Z' {
        let u: u32 = c as u32;
        let l: u8 = (u + 32) as u8;
        l as char
    } else {
        c
    }
}

/// `cs` with each ASCII uppercase letter made lowercase.
pub fn ascii_lowercase(cs: &[char]) -> (r: Vec<char>)
    ensures
        r@ == to_ascii_lower(cs@),
{
    let mut out: Vec<char> = Vec::new();
    for i in 0..cs.len()
        invariant
            out@ == to_ascii_lower(cs@.take(i as int)),
    {
        out.push(lower_char(cs[i]));
        assert(to_ascii_lower(cs@.take(i + 1)) =~= to_ascii_lower(cs@.take(i as int)).push(
            ascii_lower(cs@[i as int]),
        ));
    }
    assert(cs@.take(cs@.len() as int) == cs@);
    out
}

/// `cs` without the prefix `p`, when it begins with `p`.
pub fn strip_prefix_str(cs: &[char], p: &str) -> (r: Option<Vec<char>>)
    ensures
        r matches Some(v) ==> starts_with(cs@, p@) && v@ == cs@.skip(p@.len() as int),
        r is None ==> !starts_with(cs@, p@),
{
    let pc = chars_of(p);
    if starts_with_chars(cs, pc.as_slice()) {
        Some(slice_chars(cs, pc.len(), cs.len()))
    } else {
        None
    }
}

/// `cs` without a final character `c`, when it ends with `c`.
pub fn strip_suffix_char(cs: &[char], c: char) -> (r: Option<Vec<char>>)
    ensures
        r matches Some(v) ==> ends_with(cs@, seq![c]) && v@ == cs@.drop_last(),
        r is None ==> !ends_with(cs@, seq![c]),
{
    if ends_with_char(cs, c) {
        Some(slice_chars(cs, 0, cs.len() - 1))
    } else {
        None
    }
}

/// `s` with every trailing `c` removed.
pub open spec fn trim_end_char(s: Seq<char>, c: char) -> Seq<char>
    decreases s.len(),
{
    if s.len() > 0 && s.last() == c {
        trim_end_char(s.drop_last(), c)
    } else {
        s
    }
}

/// `cs` with every trailing `c` removed (`str::trim_end_matches`).
pub fn trim_end_char_of(cs: &[char], c: char) -> (r: Vec<char>)
    ensures
        r@ == trim_end_char(cs@, c),
{
    let mut j: usize = cs.len();
    assert(cs@.subrange(0, j as int) == cs@);
    while j > 0 && cs[j - 1] == c
        invariant
            j <= cs@.len(),
            trim_end_char(cs@, c) == trim_end_char(cs@.subrange(0, j as int), c),
        decreases j,
    {
        assert(cs@.subrange(0, j as int).drop_last() == cs@.subrange(0, j - 1));
        j = j - 1;
    }
    slice_chars(cs, 0, j)
}

/// `parts` joined with the characters of `sep` between them.
pub fn join_chars(parts: &[Vec<char>], sep: &str) -> (r: Vec<char>)
    ensures
        r@ == join(views(parts@), sep@),
{
    let sc = chars_of(sep);
    let mut out: Vec<char> = Vec::new();
    for i in 0..parts.len()
        invariant
            sc@ == sep@,
            out@ == join(views(parts@.take(i as int)), sep@),
    {
        let ghost before = out@;
        if i > 0 {
            out.extend_from_slice(sc.as_slice());
        }
        out.extend_from_slice(parts[i].as_slice());
        proof {
            let pv = views(parts@.take(i + 1));
            assert(pv.drop_last() =~= views(parts@.take(i as int)));
            assert(pv.last() == parts@[i as int]@);
            if i == 0 {
                assert(pv.len() == 1);
            }
        }
    }
    assert(parts@.take(parts@.len() as int) == parts@);
    out
}

pub proof fn lemma_trim_len(s: Seq<char>)
    ensures
        trim(s).len() <= s.len(),
{
    lemma_trim_start(s);
    lemma_trim_end(trim_start(s));
}

pub proof fn lemma_trim_end(s: Seq<char>)
    ensures
        trim_end(s).len() <= s.len(),
        trim_end(s) == s.take(trim_end(s).len() as int),
    decreases s.len(),
{
    if s.len() > 0 && is_ws(s.last()) {
        lemma_trim_end(s.drop_last());
        assert(s.drop_last().take(trim_end(s).len() as int) == s.take(trim_end(s).len() as int));
    } else {
        assert(s.take(s.len() as int) == s);
    }
}

/// The views of a sequence of strings.
pub open spec fn string_views(v: Seq<String>) -> Seq<Seq<char>> {
    v.map_values(|x: String| x@)
}

/// Whether one of `list` holds exactly the characters of `name`.
pub fn list_contains(list: &Vec<String>, name: &[char]) -> (r: bool)
    ensures
        r == string_views(list@).contains(name@),
{
    let mut i: usize = 0;
    while i < list.len()
        invariant
            i <= list@.len(),
            forall|k: int| 0 <= k < i ==> list@[k]@ != name@,
        decreases list.len() - i,
    {
        if eq_str(name, list[i].as_str()) {
            assert(string_views(list@)[i as int] == name@);
            return true;
        }
        i = i + 1;
    }
    proof {
        if string_views(list@).contains(name@) {
            let k = choose|k: int| 0 <= k < list@.len() && string_views(list@)[k] == name@;
            assert(list@[k]@ == name@);
        }
    }
    false
}

/// The first position where `p` occurs in `s`.
pub open spec fn find_seq(s: Seq<char>, p: Seq<char>) -> Option<int>
    decreases s.len(),
{
    if occurs_at(s, p, 0) {
        Some(0)
    } else if s.len() == 0 {
        None
    } else {
        match find_seq(s.drop_first(), p) {
            Some(i) => Some(i + 1),
            None => None,
        }
    }
}

pub proof fn lemma_find_seq(s: Seq<char>, p: Seq<char>)
    ensures
        find_seq(s, p) matches Some(i) ==> occurs_at(s, p, i) && forall|j: int|
            0 <= j < i ==> !occurs_at(s, p, j),
        find_seq(s, p) is None ==> forall|j: int| !occurs_at(s, p, j),
        find_seq(s, p) is Some <==> contains_seq(s, p),
    decreases s.len(),
{
    if !occurs_at(s, p, 0) && s.len() > 0 {
        lemma_find_seq(s.drop_first(), p);
        assert forall|j: int| 0 < j implies occurs_at(s, p, j) == occurs_at(
            s.drop_first(),
            p,
            j - 1,
        ) by {
            if occurs_at(s, p, j) {
                assert(s.drop_first().subrange(j - 1, j - 1 + p.len()) =~= s.subrange(j, j + p.len()));
            }
            if occurs_at(s.drop_first(), p, j - 1) {
                assert(s.drop_first().subrange(j - 1, j - 1 + p.len()) =~= s.subrange(j, j + p.len()));
            }
        }
        if let Some(i) = find_seq(s.drop_first(), p) {
            assert(occurs_at(s, p, i + 1));
        }
        if find_seq(s, p) is None {
            assert forall|j: int| !occurs_at(s, p, j) by {
                if j > 0 {
                    assert(!occurs_at(s.drop_first(), p, j - 1));
                }
            }
        }
    } else if s.len() == 0 && !occurs_at(s, p, 0) {
        assert forall|j: int| !occurs_at(s, p, j) by {
            if occurs_at(s, p, j) {
                assert(j == 0);
            }
        }
    }
}

/// The first position where `p` occurs in `cs`.
pub fn find_str_in(cs: &[char], p: &str) -> (r: Option<usize>)
    ensures
        r matches Some(i) ==> find_seq(cs@, p@) == Some(i as int),
        r is None ==> find_seq(cs@, p@) is None,
{
    let pc = chars_of(p);
    proof {
        lemma_find_seq(cs@, p@);
    }
    if pc.len() > cs.len() {
        proof {
            if let Some(i) = find_seq(cs@, p@) {
                assert(occurs_at(cs@, p@, i));
            }
        }
        return None;
    }
    let n = cs.len();
    let last = n - pc.len();
    let mut i: usize = 0;
    while i <= last
        invariant
            n == cs@.len(),
            pc@ == p@,
            last == cs@.len() - p@.len(),
            i <= last + 1,
            forall|k: int| 0 <= k < i ==> !occurs_at(cs@, p@, k),
            find_seq(cs@, p@) matches Some(f) ==> occurs_at(cs@, p@, f) && forall|j: int|
                0 <= j < f ==> !occurs_at(cs@, p@, j),
            find_seq(cs@, p@) is None ==> forall|j: int| !occurs_at(cs@, p@, j),
        decreases last + 1 - i,
    {
        if occurs_at_exec(cs, pc.as_slice(), i) {
            proof {
                if let Some(f) = find_seq(cs@, p@) {
                    if f > i {
                        assert(!occurs_at(cs@, p@, i as int));
                    }
                }
            }
            return Some(i);
        }
        if i == last {
            proof {
                if let Some(f) = find_seq(cs@, p@) {
                    assert(f <= last);
                }
            }
            return None;
        }
        i = i + 1;
    }
    None
}

/// The first position in `s` of `(` or whitespace.
pub open spec fn name_end(s: Seq<char>) -> Option<int>
    decreases s.len(),
{
    if s.len() == 0 {
        None
    } else if s[0] == '(' || is_ws(s[0]) {
        Some(0)
    } else {
        match name_end(s.drop_first()) {
            Some(i) => Some(i + 1),
            None => None,
        }
    }
}

pub proof fn lemma_name_end(s: Seq<char>)
    ensures
        name_end(s) matches Some(i) ==> 0 <= i < s.len() && (s[i] == '(' || is_ws(s[i]))
            && forall|j: int| 0 <= j < i ==> !(s[j] == '(' || is_ws(s[j])),
        name_end(s) is None ==> forall|j: int| 0 <= j < s.len() ==> !(s[j] == '(' || is_ws(s[j])),
    decreases s.len(),
{
    if s.len() > 0 && !(s[0] == '(' || is_ws(s[0])) {
        lemma_name_end(s.drop_first());
        assert forall|j: int| 0 < j < s.len() implies s[j] == s.drop_first()[j - 1] by {}
    }
}

/// The first position in `cs` of `(` or whitespace.
pub fn name_end_in(cs: &[char]) -> (r: Option<usize>)
    ensures
        r matches Some(i) ==> name_end(cs@) == Some(i as int),
        r is None ==> name_end(cs@) is None,
{
    proof {
        lemma_name_end(cs@);
    }
    let mut i: usize = 0;
    while i < cs.len()
        invariant
            i <= cs@.len(),
            forall|k: int| 0 <= k < i ==> !(cs@[k] == '(' || is_ws(cs@[k])),
            name_end(cs@) matches Some(f) ==> 0 <= f < cs@.len() && (cs@[f] == '(' || is_ws(cs@[f]))
                && forall|j: int| 0 <= j < f ==> !(cs@[j] == '(' || is_ws(cs@[j])),
            name_end(cs@) is None ==> forall|j: int|
                0 <= j < cs@.len() ==> !(cs@[j] == '(' || is_ws(cs@[j])),
        decreases cs.len() - i,
    {
        if cs[i] == '(' || is_whitespace(cs[i]) {
            proof {
                if let Some(f) = name_end(cs@) {
                    if f > i {
                        assert(!(cs@[i as int] == '(' || is_ws(cs@[i as int])));
                    }
                }
            }
            return Some(i);
        }
        i = i + 1;
    }
    None
}

/// `s` with every leading copy of `p` removed (`str::trim_start_matches`).
pub open spec fn strip_all_prefix(s: Seq<char>, p: Seq<char>) -> Seq<char>
    decreases s.len(),
{
    if p.len() > 0 && starts_with(s, p) {
        strip_all_prefix(s.skip(p.len() as int), p)
    } else {
        s
    }
}

/// `cs` with every leading copy of `p` removed.
pub fn strip_all_prefix_of(cs: &[char], p: &str) -> (r: Vec<char>)
    ensures
        r@ == strip_all_prefix(cs@, p@),
{
    let pc = chars_of(p);
    let mut cur = slice_chars(cs, 0, cs.len());
    assert(cs@.subrange(0, cs@.len() as int) == cs@);
    while pc.len() > 0 && starts_with_chars(cur.as_slice(), pc.as_slice())
        invariant
            pc@ == p@,
            strip_all_prefix(cur@, p@) == strip_all_prefix(cs@, p@),
        decreases cur@.len(),
    {
        cur = slice_chars(cur.as_slice(), pc.len(), cur.len());
    }
    cur
}

/// `s` without leading whitespace.
pub fn trim_start_chars(cs: &[char]) -> (r: Vec<char>)
    ensures
        r@ == trim_start(cs@),
{
    let n = cs.len();
    let mut i: usize = 0;
    assert(cs@.skip(0) == cs@);
    while i < n && is_whitespace(cs[i])
        invariant
            i <= n == cs@.len(),
            trim_start(cs@) == trim_start(cs@.skip(i as int)),
        decreases n - i,
    {
        assert(cs@.skip(i as int).drop_first() == cs@.skip(i + 1));
        i = i + 1;
    }
    assert(cs@.subrange(i as int, n as int) == cs@.skip(i as int));
    slice_chars(cs, i, n)
}

/// `a` comes strictly before `b` in character order (the order in which `str`
/// values compare).
pub open spec fn text_lt(a: Seq<char>, b: Seq<char>) -> bool
    decreases a.len(),
{
    if a.len() == 0 {
        b.len() > 0
    } else if b.len() == 0 {
        false
    } else if a[0] != b[0] {
        a[0] < b[0]
    } else {
        text_lt(a.drop_first(), b.drop_first())
    }
}

/// Character order is a strict total order.
pub proof fn lemma_text_lt_order(a: Seq<char>, b: Seq<char>, c: Seq<char>)
    ensures
        !text_lt(a, a),
        text_lt(a, b) && text_lt(b, c) ==> text_lt(a, c),
        a != b ==> text_lt(a, b) || text_lt(b, a),
    decreases a.len(),
{
    if a.len() > 0 {
        lemma_text_lt_order(a.drop_first(), b.drop_first(), c.drop_first());
        if b.len() > 0 && a[0] == b[0] && a != b {
            assert(a.drop_first() != b.drop_first()) by {
                if a.drop_first() == b.drop_first() {
                    assert forall|k: int| 0 <= k < a.len() implies a[k] == b[k] by {
                        if k > 0 {
                            assert(a[k] == a.drop_first()[k - 1]);
                            assert(b[k] == b.drop_first()[k - 1]);
                        }
                    }
                    assert(a =~= b);
                }
            }
        }
    } else if b.len() == 0 {
        assert(a =~= b);
    }
}

/// Whether `a` comes strictly before `b` in character order.
pub fn chars_lt(a: &[char], b: &[char]) -> (r: bool)
    ensures
        r == text_lt(a@, b@),
{
    let mut i: usize = 0;
    assert(a@.skip(0) =~= a@);
    assert(b@.skip(0) =~= b@);
    while i < a.len() && i < b.len()
        invariant
            i <= a@.len(),
            i <= b@.len(),
            text_lt(a@, b@) == text_lt(a@.skip(i as int), b@.skip(i as int)),
        decreases a.len() - i,
    {
        let ghost sa = a@.skip(i as int);
        let ghost sb = b@.skip(i as int);
        assert(sa[0] == a@[i as int] && sb[0] == b@[i as int]);
        if a[i] != b[i] {
            return a[i] < b[i];
        }
        assert(sa.drop_first() =~= a@.skip(i + 1));
        assert(sb.drop_first() =~= b@.skip(i + 1));
        i = i + 1;
    }
    i < b.len()
}

/// What `trim_end` removes is whitespace.
pub proof fn lemma_trim_end_tail(s: Seq<char>)
    ensures
        forall|k: int| trim_end(s).len() <= k < s.len() ==> is_ws(#[trigger] s[k]),
    decreases s.len(),
{
    lemma_trim_end(s);
    if s.len() > 0 && is_ws(s.last()) {
        lemma_trim_end_tail(s.drop_last());
        assert forall|k: int| trim_end(s).len() <= k < s.len() implies is_ws(#[trigger] s[k]) by {
            if k < s.len() - 1 {
                assert(s[k] == s.drop_last()[k]);
            }
        }
    }
}

/// Trimming keeps every character that is not whitespace.
pub proof fn lemma_trim_contains(s: Seq<char>, c: char)
    requires
        !is_ws(c),
    ensures
        trim(s).contains(c) <==> s.contains(c),
{
    let t1 = trim_start(s);
    lemma_trim_start(s);
    lemma_trim_end(t1);
    lemma_trim_end_tail(t1);
    let d = s.len() - t1.len();
    let t2 = trim(s);
    if t2.contains(c) {
        let k = choose|k: int| 0 <= k < t2.len() && t2[k] == c;
        assert(t1[k] == c);
        assert(s[d + k] == c);
    }
    if s.contains(c) {
        let k = choose|k: int| 0 <= k < s.len() && s[k] == c;
        if k < d {
            assert(is_ws(s[k]));
        }
        assert(t1[k - d] == c);
        if k - d >= t2.len() {
            assert(is_ws(t1[k - d]));
        }
        assert(t2[k - d] == c);
    }
}

/// A text made of whitespace only.
pub open spec fn all_ws(s: Seq<char>) -> bool {
    forall|k: int| 0 <= k < s.len() ==> is_ws(#[trigger] s[k])
}

/// Whitespace in front does not change what `trim_start` gives.
pub proof fn lemma_trim_start_ws_prefix(a: Seq<char>, r: Seq<char>)
    requires
        all_ws(a),
    ensures
        trim_start(a + r) == trim_start(r),
    decreases a.len(),
{
    if a.len() == 0 {
        assert(a + r =~= r);
    } else {
        let a1 = a.drop_first();
        assert((a + r)[0] == a[0]);
        assert((a + r).drop_first() =~= a1 + r);
        assert forall|k: int| 0 <= k < a1.len() implies is_ws(#[trigger] a1[k]) by {
            assert(a1[k] == a[k + 1]);
        }
        lemma_trim_start_ws_prefix(a1, r);
    }
}

/// Whitespace behind does not change what `trim_end` gives.
pub proof fn lemma_trim_end_ws_suffix(r: Seq<char>, c: Seq<char>)
    requires
        all_ws(c),
    ensures
        trim_end(r + c) == trim_end(r),
    decreases c.len(),
{
    if c.len() == 0 {
        assert(r + c =~= r);
    } else {
        let c1 = c.drop_last();
        assert((r + c).last() == c.last());
        assert((r + c).drop_last() =~= r + c1);
        assert forall|k: int| 0 <= k < c1.len() implies is_ws(#[trigger] c1[k]) by {
            assert(c1[k] == c[k]);
        }
        lemma_trim_end_ws_suffix(r, c1);
    }
}

/// What `trim_end` leaves does not end in whitespace.
pub proof fn lemma_trim_end_last(s: Seq<char>)
    ensures
        trim_end(s).len() > 0 ==> !is_ws(trim_end(s).last()),
    decreases s.len(),
{
    if s.len() > 0 && is_ws(s.last()) {
        lemma_trim_end_last(s.drop_last());
    }
}

/// Trimming a text framed by whitespace gives the frame's middle, when that
/// middle neither begins nor ends with whitespace.
pub proof fn lemma_trim_frame(a: Seq<char>, m: Seq<char>, c: Seq<char>)
    requires
        all_ws(a),
        all_ws(c),
        m.len() > 0 ==> !is_ws(m[0]) && !is_ws(m.last()),
    ensures
        trim(a + m + c) == m,
{
    assert(a + m + c =~= a + (m + c));
    lemma_trim_start_ws_prefix(a, m + c);
    if m.len() > 0 {
        assert((m + c)[0] == m[0]);
        assert(trim_start(m + c) == m + c);
        lemma_trim_end_ws_suffix(m, c);
        assert(trim_end(m) == m);
    } else {
        let e: Seq<char> = seq![];
        assert(m + c =~= c + e);
        lemma_trim_start_ws_prefix(c, e);
        assert(trim_start(e) == e);
        assert(trim_end(e) == e);
    }
}

/// Every text is its trimmed form framed by whitespace; the trimmed form
/// neither begins nor ends with whitespace.
pub proof fn lemma_trim_split(s: Seq<char>) -> (pq: (Seq<char>, Seq<char>))
    ensures
        all_ws(pq.0),
        all_ws(pq.1),
        s == pq.0 + trim(s) + pq.1,
        trim(s).len() > 0 ==> !is_ws(trim(s)[0]) && !is_ws(trim(s).last()),
{
    let t1 = trim_start(s);
    lemma_trim_start(s);
    lemma_trim_end(t1);
    lemma_trim_end_tail(t1);
    lemma_trim_end_last(t1);
    let t = trim(s);
    let d = s.len() - t1.len();
    let p = s.take(d);
    let q = t1.skip(t.len() as int);
    assert forall|k: int| 0 <= k < p.len() implies is_ws(#[trigger] p[k]) by {
        assert(p[k] == s[k]);
    }
    assert forall|k: int| 0 <= k < q.len() implies is_ws(#[trigger] q[k]) by {
        assert(q[k] == t1[k + t.len()]);
    }
    assert(t1 =~= t + q);
    assert(s =~= p + t + q);
    if t.len() > 0 {
        assert(t[0] == t1[0]);
    }
    (p, q)
}

} // verus!
