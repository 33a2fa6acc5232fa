//! Small string helpers shared by the parsers and message builders.

use vstd::prelude::*;

verus! {

/// `str` equality, `<str as PartialEq>::eq`: true exactly when the two
/// strings hold the same characters.
#[verifier::external_body]
pub(crate) fn str_eq(a: &str, b: &str) -> (r: bool)
    ensures
        r == (a@ == b@),
{
    a == b
}

/// `String::push`: appends one character.
#[verifier::external_body]
pub(crate) fn string_push(s: &mut String, c: char)
    ensures
        final(s)@ == old(s)@.push(c),
{
    s.push(c)
}

/// A fresh `String` holding the characters of `s`.
pub fn owned(s: &str) -> (r: String)
    ensures
        r@ == s@,
{
    s.to_owned()
}

/// Concatenation of two strings.
pub fn concat2(a: &str, b: &str) -> (r: String)
    ensures
        r@ == a@ + b@,
{
    let mut r = a.to_owned();
    r.append(b);
    r
}

/// Concatenation of three strings.
pub fn concat3(a: &str, b: &str, c: &str) -> (r: String)
    ensures
        r@ == a@ + b@ + c@,
{
    let mut r = a.to_owned();
    r.append(b);
    r.append(c);
    r
}

/// A copy of an optional string.
pub fn clone_opt(o: &Option<String>) -> (r: Option<String>)
    ensures
        r == *o,
{
    match o {
        Some(s) => Some(s.clone()),
        None => None,
    }
}

/// The characters of `s` from index `from` (inclusive) to `to`
/// (exclusive), as a new string.
pub fn substring(s: &str, from: usize, to: usize) -> (r: String)
    requires
        from <= to <= s@.len(),
    ensures
        r@ == s@.subrange(from as int, to as int),
{
    let mut r = String::new();
    let mut i = from;
    while i < to
        invariant
            from <= i <= to,
            to <= s@.len(),
            r@ == s@.subrange(from as int, i as int),
        decreases to - i,
    {
        let c = s.get_char(i);
        string_push(&mut r, c);
        assert(r@ =~= s@.subrange(from as int, i + 1));
        i += 1;
    }
    r
}

/// Unicode `White_Space`, the set `char::is_whitespace` tests.
pub open spec fn is_white(c: char) -> bool {
    ||| ('\u{9}' <= c && c <= '\u{d}')
    ||| c == ' '
    ||| c == '\u{85}'
    ||| c == '\u{a0}'
    ||| c == '\u{1680}'
    ||| ('\u{2000}' <= c && c <= '\u{200a}')
    ||| c == '\u{2028}'
    ||| c == '\u{2029}'
    ||| c == '\u{202f}'
    ||| c == '\u{205f}'
    ||| c == '\u{3000}'
}

/// `char::is_whitespace`.
pub fn is_whitespace(c: char) -> (r: bool)
    ensures
        r == is_white(c),
{
    ('\u{9}' <= c && c <= '\u{d}') || c == ' ' || c == '\u{85}' || c == '\u{a0}' || c
        == '\u{1680}' || ('\u{2000}' <= c && c <= '\u{200a}') || c == '\u{2028}' || c
        == '\u{2029}' || c == '\u{202f}' || c == '\u{205f}' || c == '\u{3000}'
}

/// Index of the first non-white character at or after `i` (or the length).
pub open spec fn skip_white(s: Seq<char>, i: int) -> int
    decreases s.len() - i,
{
    if i < 0 || i >= s.len() {
        if i < 0 { 0 } else { s.len() as int }
    } else if is_white(s[i]) {
        skip_white(s, i + 1)
    } else {
        i
    }
}

/// Index just after the last non-white character before `j` (or 0).
pub open spec fn trim_end_at(s: Seq<char>, j: int) -> int
    decreases j,
{
    if j <= 0 {
        0
    } else if j > s.len() {
        trim_end_at(s, s.len() as int)
    } else if is_white(s[j - 1]) {
        trim_end_at(s, j - 1)
    } else {
        j
    }
}

/// `str::trim`: leading and trailing white space removed.
pub open spec fn trimmed(s: Seq<char>) -> Seq<char> {
    let a = skip_white(s, 0);
    let b = trim_end_at(s, s.len() as int);
    if a < b {
        s.subrange(a, b)
    } else {
        Seq::empty()
    }
}

proof fn lemma_skip_white_range(s: Seq<char>, i: int)
    requires
        0 <= i <= s.len(),
    ensures
        i <= skip_white(s, i) <= s.len(),
        forall|k: int| i <= k < skip_white(s, i) ==> is_white(s[k]),
        skip_white(s, i) < s.len() ==> !is_white(s[skip_white(s, i)]),
    decreases s.len() - i,
{
    if i < s.len() && is_white(s[i]) {
        lemma_skip_white_range(s, i + 1);
    }
}

proof fn lemma_trim_end_range(s: Seq<char>, j: int)
    requires
        0 <= j <= s.len(),
    ensures
        0 <= trim_end_at(s, j) <= j,
        forall|k: int| trim_end_at(s, j) <= k < j ==> is_white(s[k]),
        trim_end_at(s, j) > 0 ==> !is_white(s[trim_end_at(s, j) - 1]),
    decreases j,
{
    if j > 0 && is_white(s[j - 1]) {
        lemma_trim_end_range(s, j - 1);
    }
}

/// `str::trim`.
pub fn trim(s: &str) -> (r: String)
    ensures
        r@ == trimmed(s@),
{
    let n = s.unicode_len();
    let mut a: usize = 0;
    while a < n && is_whitespace(s.get_char(a))
        invariant
            a <= n,
            n == s@.len(),
            skip_white(s@, a as int) == skip_white(s@, 0),
        decreases n - a,
    {
        a += 1;
    }
    let mut b: usize = n;
    while b > 0 && is_whitespace(s.get_char(b - 1))
        invariant
            b <= n,
            n == s@.len(),
            trim_end_at(s@, b as int) == trim_end_at(s@, n as int),
        decreases b,
    {
        b -= 1;
    }
    if a < b {
        substring(s, a, b)
    } else {
        String::new()
    }
}

/// The pieces of `s` between occurrences of `sep`, as `str::split`
/// yields them (an empty string yields one empty piece).
pub open spec fn split_on(s: Seq<char>, sep: char) -> Seq<Seq<char>>
    decreases s.len(),
{
    if s.len() == 0 {
        seq![Seq::empty()]
    } else {
        let rest = split_on(s.drop_last(), sep);
        if s.last() == sep {
            rest.push(Seq::empty())
        } else {
            rest.update(rest.len() - 1, rest.last().push(s.last()))
        }
    }
}

pub proof fn lemma_split_on_nonempty(s: Seq<char>, sep: char)
    ensures
        split_on(s, sep).len() >= 1,
    decreases s.len(),
{
    if s.len() > 0 {
        lemma_split_on_nonempty(s.drop_last(), sep);
    }
}

/// `str::split` on one character, each piece as a new string.
pub fn split_char(s: &str, sep: char) -> (r: Vec<String>)
    ensures
        r@.len() == split_on(s@, sep).len(),
        forall|i: int| 0 <= i < r@.len() ==> #[trigger] r@[i]@ == split_on(s@, sep)[i],
{
    let n = s.unicode_len();
    let mut out: Vec<String> = Vec::new();
    let mut cur = String::new();
    let mut i: usize = 0;
    while i < n
        invariant
            i <= n,
            n == s@.len(),
            out@.len() + 1 == split_on(s@.take(i as int), sep).len(),
            forall|k: int| 0 <= k < out@.len() ==> #[trigger] out@[k]@ == split_on(
                s@.take(i as int),
                sep,
            )[k],
            cur@ == split_on(s@.take(i as int), sep).last(),
        decreases n - i,
    {
        let c = s.get_char(i);
        proof {
            assert(s@.take(i + 1).drop_last() =~= s@.take(i as int));
            lemma_split_on_nonempty(s@.take(i as int), sep);
        }
        if c == sep {
            out.push(cur);
            cur = String::new();
        } else {
            string_push(&mut cur, c);
        }
        i += 1;
    }
    proof {
        assert(s@.take(n as int) =~= s@);
    }
    out.push(cur);
    proof {
        lemma_split_on_nonempty(s@, sep);
        let sp = split_on(s@, sep);
        assert forall|k: int| 0 <= k < out@.len() implies #[trigger] out@[k]@ == sp[k] by {
            if k < out@.len() - 1 {
            }
        }
    }
    out
}

/// Does `s` contain the character `c`?
pub fn contains_char(s: &str, c: char) -> (r: bool)
    ensures
        r == s@.contains(c),
{
    let n = s.unicode_len();
    let mut i: usize = 0;
    while i < n
        invariant
            i <= n,
            n == s@.len(),
            forall|k: int| 0 <= k < i ==> s@[k] != c,
        decreases n - i,
    {
        if s.get_char(i) == c {
            assert(s@[i as int] == c);
            return true;
        }
        i += 1;
    }
    false
}


pub open spec fn has_prefix(s: Seq<char>, p: Seq<char>) -> bool {
    p.len() <= s.len() && s.subrange(0, p.len() as int) == p
}

pub open spec fn has_suffix(s: Seq<char>, p: Seq<char>) -> bool {
    p.len() <= s.len() && s.subrange(s.len() - p.len(), s.len() as int) == p
}

/// `str::starts_with` for a string pattern.
pub fn starts_with(s: &str, p: &str) -> (r: bool)
    ensures
        r == has_prefix(s@, p@),
{
    let n = s.unicode_len();
    let m = p.unicode_len();
    if m > n {
        return false;
    }
    let mut i: usize = 0;
    while i < m
        invariant
            i <= m <= n,
            n == s@.len(),
            m == p@.len(),
            forall|k: int| 0 <= k < i ==> s@[k] == p@[k],
        decreases m - i,
    {
        if s.get_char(i) != p.get_char(i) {
            assert(s@.subrange(0, m as int)[i as int] != p@[i as int]);
            return false;
        }
        i += 1;
    }
    assert(s@.subrange(0, m as int) =~= p@);
    true
}

/// `str::ends_with` for a string pattern.
pub fn ends_with(s: &str, p: &str) -> (r: bool)
    ensures
        r == has_suffix(s@, p@),
{
    let n = s.unicode_len();
    let m = p.unicode_len();
    if m > n {
        return false;
    }
    let off = n - m;
    let mut i: usize = 0;
    while i < m
        invariant
            i <= m <= n,
            off == n - m,
            n == s@.len(),
            m == p@.len(),
            forall|k: int| 0 <= k < i ==> s@[off + k] == p@[k],
        decreases m - i,
    {
        if s.get_char(off + i) != p.get_char(i) {
            assert(s@.subrange(off as int, n as int)[i as int] != p@[i as int]);
            return false;
        }
        i += 1;
    }
    assert(s@.subrange(off as int, n as int) =~= p@);
    true
}

/// The view of each string of a sequence.
pub open spec fn views(v: Seq<String>) -> Seq<Seq<char>> {
    Seq::new(v.len(), |i: int| v[i]@)
}

/// A copy of a vector of strings.
pub fn clone_strings(v: &Vec<String>) -> (r: Vec<String>)
    ensures
        r@ == v@,
{
    let mut out: Vec<String> = Vec::new();
    let mut i: usize = 0;
    while i < v.len()
        invariant
            i <= v@.len(),
            out@ == v@.take(i as int),
        decreases v@.len() - i,
    {
        out.push(v[i].clone());
        assert(out@ =~= v@.take(i + 1));
        i += 1;
    }
    assert(v@.take(i as int) =~= v@);
    out
}

/// The non-empty trimmed pieces, in order.
pub open spec fn list_items(parts: Seq<Seq<char>>) -> Seq<Seq<char>>
    decreases parts.len(),
{
    if parts.len() == 0 {
        Seq::empty()
    } else {
        let r = list_items(parts.drop_last());
        let t = trimmed(parts.last());
        if t.len() > 0 {
            r.push(t)
        } else {
            r
        }
    }
}

/// A comma list: pieces trimmed, empty pieces dropped.
pub open spec fn comma_list(s: Seq<char>) -> Seq<Seq<char>> {
    list_items(split_on(s, ','))
}

/// `s.split(sep).map(str::trim).filter(|p| !p.is_empty())`, owned.
pub fn split_trimmed(s: &str, sep: char) -> (r: Vec<String>)
    ensures
        views(r@) == list_items(split_on(s@, sep)),
{
    let parts = split_char(s, sep);
    let ghost sp = split_on(s@, sep);
    let mut out: Vec<String> = Vec::new();
    let mut i: usize = 0;
    while i < parts.len()
        invariant
            i <= parts@.len(),
            parts@.len() == sp.len(),
            forall|k: int| 0 <= k < parts@.len() ==> #[trigger] parts@[k]@ == sp[k],
            views(out@) == list_items(sp.take(i as int)),
        decreases parts@.len() - i,
    {
        assert(sp.take(i + 1).drop_last() =~= sp.take(i as int));
        assert(sp.take(i + 1).last() == parts@[i as int]@);
        let t = trim(parts[i].as_str());
        if t.unicode_len() > 0 {
            out.push(t);
            assert(views(out@) =~= list_items(sp.take(i as int)).push(t@));
        }
        i += 1;
    }
    assert(sp.take(i as int) =~= sp);
    out
}

/// The first index at or after `i` holding `c`.
pub open spec fn index_from(s: Seq<char>, c: char, i: int) -> Option<int>
    decreases s.len() - i,
{
    if i < 0 || i >= s.len() {
        None
    } else if s[i] == c {
        Some(i)
    } else {
        index_from(s, c, i + 1)
    }
}

/// The first index of `c` in `s`, if any.
pub open spec fn index_of(s: Seq<char>, c: char) -> Option<int> {
    index_from(s, c, 0)
}

proof fn lemma_index_from(s: Seq<char>, c: char, i: int)
    requires
        0 <= i,
    ensures
        index_from(s, c, i) matches Some(j) ==> i <= j < s.len() && s[j] == c && forall|k: int|
            i <= k < j ==> s[k] != c,
        index_from(s, c, i) is None ==> forall|k: int| i <= k < s.len() ==> s[k] != c,
    decreases s.len() - i,
{
    if i < s.len() && s[i] != c {
        lemma_index_from(s, c, i + 1);
    }
}

pub proof fn lemma_index_of(s: Seq<char>, c: char)
    ensures
        index_of(s, c) matches Some(i) ==> 0 <= i < s.len() && s[i] == c && forall|k: int|
            0 <= k < i ==> s[k] != c,
        index_of(s, c) is None ==> forall|k: int| 0 <= k < s.len() ==> s[k] != c,
{
    lemma_index_from(s, c, 0);
}

pub fn find_char(s: &str, c: char) -> (r: Option<usize>)
    ensures
        match r {
            Some(i) => index_of(s@, c) == Some(i as int),
            None => index_of(s@, c) is None,
        },
{
    let n = s.unicode_len();
    let mut i: usize = 0;
    while i < n
        invariant
            i <= n,
            n == s@.len(),
            index_of(s@, c) == index_from(s@, c, i as int),
        decreases n - i,
    {
        if s.get_char(i) == c {
            return Some(i);
        }
        i += 1;
    }
    None
}

} // verus!
