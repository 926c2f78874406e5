//! Character-level text operations with exact specifications over `Seq<char>`.
//!
//! Positions in this module count characters, not bytes.
use vstd::prelude::*;

verus! {

/// `String::push` appends one character.
pub assume_specification[ String::push ](s: &mut String, ch: char)
    ensures
        final(s)@ == old(s)@.push(ch),
;

/// A class of characters that trimming functions strip.
#[derive(Clone, Copy, PartialEq, Eq, Structural)]
pub enum CharClass {
    /// Characters with the Unicode `White_Space` property (what `char::is_whitespace` accepts).
    Whitespace,
    /// Carriage return and line feed.
    LineEnd,
    /// One given character.
    Exactly(char),
}

/// The Unicode `White_Space` property, the set that `char::is_whitespace` accepts.
pub open spec fn is_unicode_ws(c: char) -> bool {
    ||| ('\u{9}' <= c && c <= '\u{d}')
    ||| c == ' '
    ||| c == '\u{85}'
    ||| c == '\u{a0}'
    ||| c == '\u{1680}'
    ||| ('\u{2000}' <= c && c <= '\u{200a}')
    ||| c == '\u{2028}'
    ||| c == '\u{2029}'
    ||| c == '\u{202f}'
    ||| c == '\u{205f}'
    ||| c == '\u{3000}'
}

pub open spec fn is_ascii_digit_char(c: char) -> bool {
    '0' <= c && c <= '9'
}

pub open spec fn is_ascii_char(c: char) -> bool {
    c < '\u{80}'
}

/// An ASCII letter or digit.
pub open spec fn is_ascii_alphanumeric(c: char) -> bool {
    ||| ('a' <= c && c <= 'z')
    ||| ('A' <= c && c <= 'Z')
    ||| is_ascii_digit_char(c)
}

impl CharClass {
    pub open spec fn spec_has(self, c: char) -> bool {
        match self {
            CharClass::Whitespace => is_unicode_ws(c),
            CharClass::LineEnd => c == '\r' || c == '\n',
            CharClass::Exactly(d) => c == d,
        }
    }

    /// Whether `c` belongs to this class.
    pub fn has(&self, c: char) -> (r: bool)
        ensures
            r == self.spec_has(c),
    {
        match self {
            CharClass::Whitespace => is_whitespace(c),
            CharClass::LineEnd => c == '\r' || c == '\n',
            CharClass::Exactly(d) => c == *d,
        }
    }
}

/// Same answer as `char::is_whitespace`.
pub fn is_whitespace(c: char) -> (r: bool)
    ensures
        r == is_unicode_ws(c),
{
    ('\u{9}' <= c && c <= '\u{d}') || c == ' ' || c == '\u{85}' || c == '\u{a0}' || c
        == '\u{1680}' || ('\u{2000}' <= c && c <= '\u{200a}') || c == '\u{2028}' || c
        == '\u{2029}' || c == '\u{202f}' || c == '\u{205f}' || c == '\u{3000}'
}

/// Same answer as `char::is_ascii_digit`.
pub fn is_ascii_digit(c: char) -> (r: bool)
    ensures
        r == is_ascii_digit_char(c),
{
    '0' <= c && c <= '9'
}

// ---------------------------------------------------------------------------
// Specifications
// ---------------------------------------------------------------------------

/// Drops the leading characters of class `k`.
pub open spec fn spec_trim_start(s: Seq<char>, k: CharClass) -> Seq<char>
    decreases s.len(),
{
    if s.len() > 0 && k.spec_has(s[0]) {
        spec_trim_start(s.drop_first(), k)
    } else {
        s
    }
}

/// Drops the trailing characters of class `k`.
pub open spec fn spec_trim_end(s: Seq<char>, k: CharClass) -> Seq<char>
    decreases s.len(),
{
    if s.len() > 0 && k.spec_has(s.last()) {
        spec_trim_end(s.drop_last(), k)
    } else {
        s
    }
}

/// Drops the leading and the trailing characters of class `k`.
pub open spec fn spec_trim_both(s: Seq<char>, k: CharClass) -> Seq<char> {
    spec_trim_end(spec_trim_start(s, k), k)
}

/// What `str::trim` gives.
pub open spec fn spec_trim(s: Seq<char>) -> Seq<char> {
    spec_trim_both(s, CharClass::Whitespace)
}

/// `pat` occurs in `s` at position `i`.
pub open spec fn matches_at(s: Seq<char>, pat: Seq<char>, i: int) -> bool {
    0 <= i && i + pat.len() <= s.len() && s.subrange(i, i + pat.len()) == pat
}

/// The first position at or after `k` where `pat` occurs.
pub open spec fn find_from(s: Seq<char>, pat: Seq<char>, k: int) -> Option<int>
    decreases s.len() + 1 - k,
{
    if k < 0 || k + pat.len() > s.len() {
        None
    } else if matches_at(s, pat, k) {
        Some(k)
    } else {
        find_from(s, pat, k + 1)
    }
}

/// The first position where `pat` occurs (what `str::find` locates).
pub open spec fn spec_find(s: Seq<char>, pat: Seq<char>) -> Option<int> {
    find_from(s, pat, 0)
}

/// Whether `pat` occurs in `s` (what `str::contains` answers).
pub open spec fn spec_contains(s: Seq<char>, pat: Seq<char>) -> bool {
    spec_find(s, pat) is Some
}

/// The last position at or before `k` where `pat` occurs.
pub open spec fn rfind_from(s: Seq<char>, pat: Seq<char>, k: int) -> Option<int>
    decreases k + 1,
{
    if k < 0 {
        None
    } else if matches_at(s, pat, k) {
        Some(k)
    } else {
        rfind_from(s, pat, k - 1)
    }
}

/// The last position where `pat` occurs (what `str::rfind` locates).
pub open spec fn spec_rfind(s: Seq<char>, pat: Seq<char>) -> Option<int> {
    rfind_from(s, pat, s.len() - pat.len())
}

pub open spec fn spec_starts_with(s: Seq<char>, p: Seq<char>) -> bool {
    p.len() <= s.len() && s.subrange(0, p.len() as int) == p
}

pub open spec fn spec_ends_with(s: Seq<char>, p: Seq<char>) -> bool {
    p.len() <= s.len() && s.subrange(s.len() - p.len(), s.len() as int) == p
}

/// The piece of `s` that `s.split(sep)` yields second, if there is one.
pub open spec fn spec_second_piece(s: Seq<char>, sep: Seq<char>) -> Option<Seq<char>> {
    match spec_find(s, sep) {
        None => None,
        Some(i) => {
            let st = i + sep.len();
            match find_from(s, sep, st) {
                None => Some(s.subrange(st, s.len() as int)),
                Some(j) => Some(s.subrange(st, j)),
            }
        },
    }
}

/// The pieces of `s` from position `start` on, between the occurrences of `sep`.
pub open spec fn split_from(s: Seq<char>, sep: char, start: int) -> Seq<Seq<char>>
    decreases s.len() + 1 - start,
{
    if start < 0 || start > s.len() {
        seq![]
    } else {
        match find_from(s, seq![sep], start) {
            None => seq![s.subrange(start, s.len() as int)],
            Some(i) => {
                proof {
                    lemma_find_from_result(s, seq![sep], start);
                }
                seq![s.subrange(start, i)] + split_from(s, sep, i + 1)
            },
        }
    }
}

/// The pieces of `s` between the occurrences of the character `sep` (what `str::split` yields).
pub open spec fn spec_split_char(s: Seq<char>, sep: char) -> Seq<Seq<char>> {
    split_from(s, sep, 0)
}

/// The last piece that `s.split(sep)` yields.
pub open spec fn spec_last_piece(s: Seq<char>, sep: char) -> Seq<char> {
    match spec_rfind(s, seq![sep]) {
        None => s,
        Some(i) => s.skip(i + 1),
    }
}

/// The first piece that `s.split(sep)` yields.
pub open spec fn spec_first_piece(s: Seq<char>, sep: char) -> Seq<char> {
    match spec_find(s, seq![sep]) {
        None => s,
        Some(i) => s.take(i),
    }
}

/// The characters of `s` that satisfy `p`, in order.
pub open spec fn keep_chars(s: Seq<char>, p: spec_fn(char) -> bool) -> Seq<char>
    decreases s.len(),
{
    if s.len() == 0 {
        seq![]
    } else {
        keep_chars(s.drop_last(), p) + (if p(s.last()) {
            seq![s.last()]
        } else {
            seq![]
        })
    }
}

pub open spec fn all_ascii_digits(s: Seq<char>) -> bool {
    forall|i: int| 0 <= i < s.len() ==> is_ascii_digit_char(#[trigger] s[i])
}

/// Length in bytes of the UTF-8 encoding of `s` (what `str::len` gives).
pub open spec fn utf8_len(s: Seq<char>) -> nat {
    vstd::utf8::encode_utf8(s).len()
}

/// What `str::len` gives: the number of bytes of the UTF-8 encoding.
pub open spec fn str_len(s: Seq<char>) -> usize {
    utf8_len(s) as usize
}

/// What `safe_truncate_string` gives: at most `max` characters, with "..." after a cut.
pub open spec fn spec_truncate(s: Seq<char>, max: nat) -> Seq<char> {
    if s.len() <= max {
        s
    } else {
        s.take(max as int) + seq!['.', '.', '.']
    }
}

// ---------------------------------------------------------------------------
// Lemmas
// ---------------------------------------------------------------------------

pub proof fn lemma_trim_start_skip(s: Seq<char>, k: CharClass, i: int)
    requires
        0 <= i <= s.len(),
        forall|j: int| 0 <= j < i ==> k.spec_has(#[trigger] s[j]),
        i == s.len() || !k.spec_has(s[i]),
    ensures
        spec_trim_start(s, k) == s.skip(i),
    decreases i,
{
    if i == 0 {
        assert(s.skip(0) =~= s);
    } else {
        assert forall|j: int| 0 <= j < i - 1 implies k.spec_has(#[trigger] s.drop_first()[j]) by {
            assert(s.drop_first()[j] == s[j + 1]);
        }
        lemma_trim_start_skip(s.drop_first(), k, i - 1);
        assert(s.drop_first().skip(i - 1) =~= s.skip(i));
    }
}

pub proof fn lemma_trim_end_take(s: Seq<char>, k: CharClass, e: int)
    requires
        0 <= e <= s.len(),
        forall|j: int| e <= j < s.len() ==> k.spec_has(#[trigger] s[j]),
        e == 0 || !k.spec_has(s[e - 1]),
    ensures
        spec_trim_end(s, k) == s.take(e),
    decreases s.len() - e,
{
    if e == s.len() {
        assert(s.take(e) =~= s);
    } else {
        assert forall|j: int| e <= j < s.len() - 1 implies k.spec_has(#[trigger] s.drop_last()[j]) by {
            assert(s.drop_last()[j] == s[j]);
        }
        lemma_trim_end_take(s.drop_last(), k, e);
        assert(s.drop_last().take(e) =~= s.take(e));
    }
}

pub proof fn lemma_find_from_none(s: Seq<char>, pat: Seq<char>, k: int, m: int)
    requires
        0 <= k <= m,
        forall|j: int| k <= j < m ==> !matches_at(s, pat, j),
    ensures
        find_from(s, pat, k) == find_from(s, pat, m),
    decreases m - k,
{
    if k < m {
        if k + pat.len() > s.len() {
            if m + pat.len() > s.len() {
            }
        } else {
            lemma_find_from_none(s, pat, k + 1, m);
        }
    }
}

pub proof fn lemma_find_from_result(s: Seq<char>, pat: Seq<char>, k: int)
    requires
        0 <= k,
    ensures
        find_from(s, pat, k) matches Some(i) ==> k <= i && matches_at(s, pat, i) && forall|j: int|
            k <= j < i ==> !matches_at(s, pat, j),
        find_from(s, pat, k) is None ==> forall|j: int| k <= j ==> !matches_at(s, pat, j),
    decreases s.len() + 1 - k,
{
    if k + pat.len() > s.len() {
    } else if matches_at(s, pat, k) {
    } else {
        lemma_find_from_result(s, pat, k + 1);
    }
}

pub proof fn lemma_rfind_from_result(s: Seq<char>, pat: Seq<char>, k: int)
    ensures
        rfind_from(s, pat, k) matches Some(i) ==> i <= k && matches_at(s, pat, i) && forall|j: int|
            i < j <= k ==> !matches_at(s, pat, j),
        rfind_from(s, pat, k) is None ==> forall|j: int| j <= k ==> !matches_at(s, pat, j),
    decreases k + 1,
{
    if k < 0 {
    } else if matches_at(s, pat, k) {
    } else {
        lemma_rfind_from_result(s, pat, k - 1);
    }
}

// ---------------------------------------------------------------------------
// Executable operations
// ---------------------------------------------------------------------------

/// The characters of `s`, in order.
pub fn chars_of(s: &str) -> (res: Vec<char>)
    ensures
        res@ == s@,
{
    let mut out: Vec<char> = Vec::new();
    for c in it: s.chars()
        invariant
            out@ == it.seq().take(it.index() as int),
    {
        out.push(c);
    }
    out
}

/// A string holding the characters `v[from..to]`.
pub fn string_from_chars(v: &Vec<char>, from: usize, to: usize) -> (res: String)
    requires
        from <= to <= v.len(),
    ensures
        res@ == v@.subrange(from as int, to as int),
{
    let mut out = String::new();
    let mut i = from;
    while i < to
        invariant
            from <= i <= to <= v.len(),
            out@ == v@.subrange(from as int, i as int),
        decreases to - i,
    {
        out.push(v[i]);
        i += 1;
        assert(out@ =~= v@.subrange(from as int, i as int));
    }
    out
}

/// A copy of `s` as an owned string.
pub fn owned(s: &str) -> (res: String)
    ensures
        res@ == s@,
{
    s.to_owned()
}

/// Whether `a` and `b` hold the same characters.
pub fn str_eq(a: &str, b: &str) -> (r: bool)
    ensures
        r == (a@ == b@),
{
    let va = chars_of(a);
    let vb = chars_of(b);
    if va.len() != vb.len() {
        return false;
    }
    let mut i: usize = 0;
    while i < va.len()
        invariant
            va@ == a@,
            vb@ == b@,
            va.len() == vb.len(),
            i <= va.len(),
            forall|j: int| 0 <= j < i ==> va@[j] == vb@[j],
        decreases va.len() - i,
    {
        if va[i] != vb[i] {
            return false;
        }
        i += 1;
    }
    assert(va@ =~= vb@);
    true
}

/// Whether `pat` occurs in `v` at position `i`.
pub fn matches_at_exec(v: &Vec<char>, pat: &Vec<char>, i: usize) -> (r: bool)
    ensures
        r == matches_at(v@, pat@, i as int),
{
    if i > v.len() || pat.len() > v.len() - i {
        return false;
    }
    let mut j: usize = 0;
    while j < pat.len()
        invariant
            i + pat.len() <= v.len(),
            j <= pat.len(),
            forall|t: int| 0 <= t < j ==> v@[i + t] == pat@[t],
        decreases pat.len() - j,
    {
        if v[i + j] != pat[j] {
            assert(v@.subrange(i as int, i + pat.len())[j as int] != pat@[j as int]);
            return false;
        }
        j += 1;
    }
    assert(v@.subrange(i as int, i + pat.len()) =~= pat@);
    true
}

/// The first position at or after `start` where `pat` occurs in `v`.
pub fn find_chars_from(v: &Vec<char>, pat: &Vec<char>, start: usize) -> (r: Option<usize>)
    ensures
        match r {
            Some(i) => find_from(v@, pat@, start as int) == Some(i as int) && matches_at(
                v@,
                pat@,
                i as int,
            ) && start <= i && i + pat.len() <= v.len(),
            None => find_from(v@, pat@, start as int) is None,
        },
{
    proof {
        lemma_find_from_result(v@, pat@, start as int);
    }
    if start > v.len() || pat.len() > v.len() - start {
        return None;
    }
    let last = v.len() - pat.len();
    let mut i = start;
    loop
        invariant
            start <= i <= last,
            last + pat.len() == v.len(),
            find_from(v@, pat@, start as int) == find_from(v@, pat@, i as int),
        decreases last - i,
    {
        if matches_at_exec(v, pat, i) {
            return Some(i);
        }
        if i == last {
            assert(find_from(v@, pat@, i + 1) is None);
            return None;
        }
        i += 1;
    }
}

/// The last position where `pat` occurs in `v`.
pub fn rfind_chars(v: &Vec<char>, pat: &Vec<char>) -> (r: Option<usize>)
    ensures
        match r {
            Some(i) => spec_rfind(v@, pat@) == Some(i as int) && matches_at(v@, pat@, i as int)
                && i + pat.len() <= v.len(),
            None => spec_rfind(v@, pat@) is None,
        },
{
    proof {
        lemma_rfind_from_result(v@, pat@, v@.len() - pat@.len());
    }
    if pat.len() > v.len() {
        return None;
    }
    let mut i = v.len() - pat.len();
    loop
        invariant
            i + pat.len() <= v.len(),
            spec_rfind(v@, pat@) == rfind_from(v@, pat@, i as int),
        decreases i,
    {
        if matches_at_exec(v, pat, i) {
            return Some(i);
        }
        if i == 0 {
            assert(rfind_from(v@, pat@, -1) is None);
            return None;
        }
        i -= 1;
    }
}

/// The first position (in characters) where `pat` occurs in `s`.
pub fn find(s: &str, pat: &str) -> (r: Option<usize>)
    ensures
        match r {
            Some(i) => spec_find(s@, pat@) == Some(i as int),
            None => spec_find(s@, pat@) is None,
        },
{
    let v = chars_of(s);
    let p = chars_of(pat);
    find_chars_from(&v, &p, 0)
}

/// Whether `pat` occurs in `s`.
pub fn contains(s: &str, pat: &str) -> (r: bool)
    ensures
        r == spec_contains(s@, pat@),
{
    find(s, pat).is_some()
}

/// Whether the character `c` occurs in `s`.
pub fn contains_char(s: &str, c: char) -> (r: bool)
    ensures
        r == spec_contains(s@, seq![c]),
{
    let v = chars_of(s);
    let mut p: Vec<char> = Vec::new();
    p.push(c);
    assert(p@ =~= seq![c]);
    find_chars_from(&v, &p, 0).is_some()
}

/// Whether `s` begins with `p`.
pub fn starts_with(s: &str, p: &str) -> (r: bool)
    ensures
        r == spec_starts_with(s@, p@),
{
    let v = chars_of(s);
    let pv = chars_of(p);
    let r = matches_at_exec(&v, &pv, 0);
    assert(r == spec_starts_with(s@, p@));
    r
}

/// Whether `s` ends with `p`.
pub fn ends_with(s: &str, p: &str) -> (r: bool)
    ensures
        r == spec_ends_with(s@, p@),
{
    let v = chars_of(s);
    let pv = chars_of(p);
    if pv.len() > v.len() {
        return false;
    }
    matches_at_exec(&v, &pv, v.len() - pv.len())
}

/// `s` without the characters of class `k` at its start and at its end.
pub fn trim_class(s: &str, k: CharClass) -> (res: String)
    ensures
        res@ == spec_trim_both(s@, k),
{
    let v = chars_of(s);
    let mut i: usize = 0;
    while i < v.len() && k.has(v[i])
        invariant
            v@ == s@,
            i <= v.len(),
            forall|j: int| 0 <= j < i ==> k.spec_has(#[trigger] v@[j]),
        decreases v.len() - i,
    {
        i += 1;
    }
    proof {
        lemma_trim_start_skip(s@, k, i as int);
    }
    let ghost t = s@.skip(i as int);
    let mut e: usize = v.len();
    while e > i && k.has(v[e - 1])
        invariant
            v@ == s@,
            i <= e <= v.len(),
            t == s@.skip(i as int),
            forall|j: int| e <= j < v.len() ==> k.spec_has(#[trigger] v@[j]),
        decreases e,
    {
        e -= 1;
    }
    proof {
        assert forall|j: int| e - i <= j < t.len() implies k.spec_has(#[trigger] t[j]) by {
            assert(t[j] == v@[j + i]);
        }
        if e > i {
            assert(t[e - i - 1] == v@[e - 1]);
        }
        lemma_trim_end_take(t, k, e - i);
        assert(t.take(e - i) =~= v@.subrange(i as int, e as int));
    }
    string_from_chars(&v, i, e)
}

/// `s` without its leading characters of class `k`.
pub fn trim_start_class(s: &str, k: CharClass) -> (res: String)
    ensures
        res@ == spec_trim_start(s@, k),
{
    let v = chars_of(s);
    let mut i: usize = 0;
    while i < v.len() && k.has(v[i])
        invariant
            v@ == s@,
            i <= v.len(),
            forall|j: int| 0 <= j < i ==> k.spec_has(#[trigger] v@[j]),
        decreases v.len() - i,
    {
        i += 1;
    }
    proof {
        lemma_trim_start_skip(s@, k, i as int);
        assert(s@.skip(i as int) =~= v@.subrange(i as int, v.len() as int));
    }
    string_from_chars(&v, i, v.len())
}

/// `s` without its trailing characters of class `k`.
pub fn trim_end_class(s: &str, k: CharClass) -> (res: String)
    ensures
        res@ == spec_trim_end(s@, k),
{
    let v = chars_of(s);
    let mut e: usize = v.len();
    while e > 0 && k.has(v[e - 1])
        invariant
            v@ == s@,
            e <= v.len(),
            forall|j: int| e <= j < v.len() ==> k.spec_has(#[trigger] v@[j]),
        decreases e,
    {
        e -= 1;
    }
    proof {
        lemma_trim_end_take(s@, k, e as int);
        assert(s@.take(e as int) =~= v@.subrange(0, e as int));
    }
    string_from_chars(&v, 0, e)
}

/// `s` without surrounding whitespace (as `str::trim` gives).
pub fn trim(s: &str) -> (res: String)
    ensures
        res@ == spec_trim(s@),
{
    trim_class(s, CharClass::Whitespace)
}

/// The piece that `s.split(sep)` yields second, if any.
pub fn second_piece(s: &str, sep: &str) -> (r: Option<String>)
    ensures
        match r {
            Some(x) => spec_second_piece(s@, sep@) == Some(x@),
            None => spec_second_piece(s@, sep@) is None,
        },
{
    let v = chars_of(s);
    let p = chars_of(sep);
    match find_chars_from(&v, &p, 0) {
        None => None,
        Some(i) => {
            let start = i + p.len();
            match find_chars_from(&v, &p, start) {
                None => Some(string_from_chars(&v, start, v.len())),
                Some(j) => Some(string_from_chars(&v, start, j)),
            }
        },
    }
}

/// The text after the last `sep` in `s`, or all of `s` (what `s.split(sep).last()` gives).
pub fn last_piece(s: &str, sep: char) -> (res: String)
    ensures
        res@ == spec_last_piece(s@, sep),
{
    let v = chars_of(s);
    let mut p: Vec<char> = Vec::new();
    p.push(sep);
    assert(p@ =~= seq![sep]);
    match rfind_chars(&v, &p) {
        None => owned(s),
        Some(i) => {
            let r = string_from_chars(&v, i + 1, v.len());
            assert(r@ =~= s@.skip(i + 1));
            r
        },
    }
}

/// The text before the first `sep` in `s`, or all of `s` (what `s.split(sep).next()` gives).
pub fn first_piece(s: &str, sep: char) -> (res: String)
    ensures
        res@ == spec_first_piece(s@, sep),
{
    let v = chars_of(s);
    let mut p: Vec<char> = Vec::new();
    p.push(sep);
    assert(p@ =~= seq![sep]);
    match find_chars_from(&v, &p, 0) {
        None => owned(s),
        Some(i) => {
            let r = string_from_chars(&v, 0, i);
            assert(r@ =~= s@.take(i as int));
            r
        },
    }
}

/// The pieces of `s` between occurrences of `sep` (what `s.split(sep)` yields).
pub fn split_char(s: &str, sep: char) -> (res: Vec<String>)
    ensures
        res@.map_values(|x: String| x@) == spec_split_char(s@, sep),
{
    let v = chars_of(s);
    let mut p: Vec<char> = Vec::new();
    p.push(sep);
    assert(p@ =~= seq![sep]);
    let mut out: Vec<String> = Vec::new();
    let mut start: usize = 0;
    assert(out@.map_values(|x: String| x@) + split_from(v@, sep, 0) =~= split_from(v@, sep, 0));
    loop
        invariant
            v@ == s@,
            p@ == seq![sep],
            start <= v.len(),
            out@.map_values(|x: String| x@) + split_from(v@, sep, start as int) == split_from(
                v@,
                sep,
                0,
            ),
        decreases v.len() - start,
    {
        match find_chars_from(&v, &p, start) {
            None => {
                let piece = string_from_chars(&v, start, v.len());
                let ghost before = out@.map_values(|x: String| x@);
                out.push(piece);
                assert(out@.map_values(|x: String| x@) =~= before + seq![piece@]);
                return out;
            },
            Some(j) => {
                let piece = string_from_chars(&v, start, j);
                let ghost before = out@.map_values(|x: String| x@);
                out.push(piece);
                assert(out@.map_values(|x: String| x@) =~= before + seq![piece@]);
                assert(split_from(v@, sep, start as int) == seq![piece@] + split_from(
                    v@,
                    sep,
                    j + 1,
                ));
                assert(before + split_from(v@, sep, start as int) =~= before + seq![piece@]
                    + split_from(v@, sep, j + 1));
                start = j + 1;
            },
        }
    }
}

/// Whether every character of `s` is an ASCII digit.
pub fn is_all_ascii_digits(s: &str) -> (r: bool)
    ensures
        r == all_ascii_digits(s@),
{
    let v = chars_of(s);
    let mut i: usize = 0;
    while i < v.len()
        invariant
            v@ == s@,
            i <= v.len(),
            forall|j: int| 0 <= j < i ==> is_ascii_digit_char(#[trigger] v@[j]),
        decreases v.len() - i,
    {
        if !is_ascii_digit(v[i]) {
            return false;
        }
        i += 1;
    }
    true
}

/// The ASCII digits of `input`, in order.
pub fn extract_digits(input: &str) -> (res: String)
    ensures
        res@ == keep_chars(input@, |c: char| is_ascii_digit_char(c)),
{
    let v = chars_of(input);
    let mut out = String::new();
    let mut i: usize = 0;
    while i < v.len()
        invariant
            v@ == input@,
            i <= v.len(),
            out@ == keep_chars(v@.take(i as int), |c: char| is_ascii_digit_char(c)),
        decreases v.len() - i,
    {
        assert(v@.take(i + 1).drop_last() =~= v@.take(i as int));
        if is_ascii_digit(v[i]) {
            out.push(v[i]);
        }
        i += 1;
    }
    assert(v@.take(v.len() as int) =~= v@);
    out
}

/// Number of bytes of the UTF-8 encoding of `s`.
pub fn byte_len(s: &str) -> (n: usize)
    ensures
        n == str_len(s@),
{
    s.len()
}

/// Number of characters in `s`.
pub fn char_count(s: &str) -> (n: usize)
    ensures
        n == s@.len(),
{
    chars_of(s).len()
}

/// `s` cut to `max_chars` characters, with "..." appended when something was cut.
pub fn safe_truncate_string(s: &str, max_chars: usize) -> (res: String)
    ensures
        res@ == spec_truncate(s@, max_chars as nat),
{
    let v = chars_of(s);
    if v.len() <= max_chars {
        owned(s)
    } else {
        let mut r = string_from_chars(&v, 0, max_chars);
        r.push('.');
        r.push('.');
        r.push('.');
        assert(r@ =~= s@.take(max_chars as int) + seq!['.', '.', '.']);
        r
    }
}

/// `a` followed by `b`.
pub fn concat(a: &str, b: &str) -> (res: String)
    ensures
        res@ == a@ + b@,
{
    let mut r = owned(a);
    r.append(b);
    r
}

/// `a`, `b` and `c` one after another.
pub fn concat3(a: &str, b: &str, c: &str) -> (res: String)
    ensures
        res@ == a@ + b@ + c@,
{
    let mut r = owned(a);
    r.append(b);
    r.append(c);
    r
}

} // verus!
