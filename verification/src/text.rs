//! Text utilities used by the code generators: case conversion (through
//! `heck`), string-literal escaping, decimal numbers, line splitting,
//! whitespace trimming and documentation escaping (through `regex`).

use vstd::prelude::*;
use heck::{CamelCase, KebabCase, SnakeCase};
use regex::Regex;

verus! {

/* ---------------------------------------------------------------------- */
/* Names for what outside functions return.                               */
/* ---------------------------------------------------------------------- */

/// What `heck::SnakeCase::to_snake_case` gives for the given text.
pub uninterp spec fn snake_case_of(s: Seq<char>) -> Seq<char>;

/// What `heck::CamelCase::to_camel_case` gives for the given text.
pub uninterp spec fn camel_case_of(s: Seq<char>) -> Seq<char>;

/// What `heck::KebabCase::to_kebab_case` gives for the given text.
pub uninterp spec fn kebab_case_of(s: Seq<char>) -> Seq<char>;

/// What the `Debug` formatting of a string slice (`format!("{:?}", s)`) gives.
pub uninterp spec fn debug_text_of(s: Seq<char>) -> Seq<char>;

/// Whether `regex::Regex::new` accepts the given pattern.
pub uninterp spec fn regex_compiles(pattern: Seq<char>) -> bool;

/// What `regex::Regex::replace_all` gives for the given pattern, haystack
/// and replacement string.
pub uninterp spec fn regex_replacement(
    pattern: Seq<char>,
    text: Seq<char>,
    replacement: Seq<char>,
) -> Seq<char>;

/* ---------------------------------------------------------------------- */
/* Trusted wrappers.                                                      */
/* ---------------------------------------------------------------------- */

/// Calls `heck::SnakeCase::to_snake_case`. The contract only names the
/// result (`snake_case_of`); heck's word-splitting rules are not restated.
#[verifier::external_body]
pub(crate) fn to_snake_case(s: &str) -> (r: String)
    ensures
        r@ == snake_case_of(s@),
{
    s.to_snake_case()
}

/// Calls `heck::CamelCase::to_camel_case`. The contract only names the
/// result (`camel_case_of`).
#[verifier::external_body]
pub(crate) fn to_camel_case(s: &str) -> (r: String)
    ensures
        r@ == camel_case_of(s@),
{
    s.to_camel_case()
}

/// Calls `heck::KebabCase::to_kebab_case`. The contract only names the
/// result (`kebab_case_of`).
#[verifier::external_body]
pub(crate) fn to_kebab_case(s: &str) -> (r: String)
    ensures
        r@ == kebab_case_of(s@),
{
    s.to_kebab_case()
}

/// Calls std's `Debug` formatting of a string slice (`format!("{:?}", s)`),
/// which quotes and escapes it. The contract only names the result
/// (`debug_text_of`); std's escaping tables are not restated.
#[verifier::external_body]
pub(crate) fn debug_text(s: &str) -> (r: String)
    ensures
        r@ == debug_text_of(s@),
{
    format!("{:?}", s)
}

/// Compiles `pattern` with `regex::Regex::new` and, when that succeeds,
/// calls `replace_all` on `text` with the replacement string `replacement`.
/// The contract says that the result is present exactly when the pattern
/// compiles, and names the replaced text (`regex_replacement`); the regex
/// semantics themselves are not restated.
#[verifier::external_body]
pub(crate) fn regex_replace_all(pattern: &str, text: &str, replacement: &str) -> (r: Option<String>)
    ensures
        r is Some <==> regex_compiles(pattern@),
        r matches Some(s) ==> s@ == regex_replacement(pattern@, text@, replacement@),
{
    match Regex::new(pattern) {
        Ok(re) => Some(re.replace_all(text, replacement).into_owned()),
        Err(_) => None,
    }
}

/// Calls `String::push_str`, which appends the given slice.
#[verifier::external_body]
pub(crate) fn push_str(f: &mut String, t: &str)
    ensures
        final(f)@ == old(f)@ + t@,
{
    f.push_str(t)
}

/// Calls `String::push`, which appends one character.
#[verifier::external_body]
pub(crate) fn push_char(f: &mut String, c: char)
    ensures
        final(f)@ == old(f)@.push(c),
{
    f.push(c)
}

/* ---------------------------------------------------------------------- */
/* Small verified helpers.                                                */
/* ---------------------------------------------------------------------- */

/// Error of a text writer (the counterpart of `std::fmt::Error`).
#[derive(Debug, Clone, Copy, PartialEq, Eq)]
pub struct WriteError;

/// The characters of a string slice, in order.
pub fn chars_of(s: &str) -> (v: Vec<char>)
    ensures
        v@ == s@,
{
    let mut v: Vec<char> = Vec::new();
    for c in it: s.chars()
        invariant
            v@ == it.seq().take(it.index() as int),
            it.seq() == s@,
    {
        v.push(c);
    }
    v
}

/// Appends the characters `v[lo..hi]` to `f`.
pub fn push_chars(f: &mut String, v: &Vec<char>, lo: usize, hi: usize)
    requires
        lo <= hi <= v@.len(),
    ensures
        final(f)@ == old(f)@ + v@.subrange(lo as int, hi as int),
{
    let mut i: usize = lo;
    while i < hi
        invariant
            lo <= i <= hi <= v@.len(),
            f@ == old(f)@ + v@.subrange(lo as int, i as int),
        decreases hi - i,
    {
        push_char(f, v[i]);
        assert(v@.subrange(lo as int, i + 1) =~= v@.subrange(lo as int, i as int).push(v@[i as int]));
        i = i + 1;
    }
}

/// A fresh `String` holding the given characters.
pub fn string_of(v: &Vec<char>) -> (s: String)
    ensures
        s@ == v@,
{
    let mut s = String::new();
    push_chars(&mut s, v, 0, v.len());
    assert(v@.subrange(0, v@.len() as int) =~= v@);
    s
}

/// A fresh `String` holding the characters `v[lo..hi]`.
pub fn string_of_range(v: &Vec<char>, lo: usize, hi: usize) -> (s: String)
    requires
        lo <= hi <= v@.len(),
    ensures
        s@ == v@.subrange(lo as int, hi as int),
{
    let mut s = String::new();
    push_chars(&mut s, v, lo, hi);
    assert(s@ =~= v@.subrange(lo as int, hi as int));
    s
}

/// Whether `c` is an ASCII character.
pub open spec fn is_ascii_char(c: char) -> bool {
    (c as u32) < 128
}

/// Tests `is_ascii_char`.
pub fn ascii_char(c: char) -> (b: bool)
    ensures
        b == is_ascii_char(c),
{
    (c as u32) < 128
}

/// The decimal digit for `d` (0 to 9).
pub open spec fn digit_char(d: nat) -> char {
    if d == 0 { '0' }
    else if d == 1 { '1' }
    else if d == 2 { '2' }
    else if d == 3 { '3' }
    else if d == 4 { '4' }
    else if d == 5 { '5' }
    else if d == 6 { '6' }
    else if d == 7 { '7' }
    else if d == 8 { '8' }
    else { '9' }
}

/// The decimal representation of `n`, as `n.to_string()` writes it.
pub open spec fn decimal(n: nat) -> Seq<char>
    decreases n,
{
    if n < 10 {
        seq![digit_char(n)]
    } else {
        decimal(n / 10).push(digit_char(n % 10))
    }
}

fn digit(d: usize) -> (c: char)
    requires
        d < 10,
    ensures
        c == digit_char(d as nat),
{
    if d == 0 { '0' }
    else if d == 1 { '1' }
    else if d == 2 { '2' }
    else if d == 3 { '3' }
    else if d == 4 { '4' }
    else if d == 5 { '5' }
    else if d == 6 { '6' }
    else if d == 7 { '7' }
    else if d == 8 { '8' }
    else { '9' }
}

/// Appends the decimal representation of `n`.
pub fn push_decimal(f: &mut String, n: usize)
    ensures
        final(f)@ == old(f)@ + decimal(n as nat),
    decreases n,
{
    if n >= 10 {
        push_decimal(f, n / 10);
    }
    let ghost before = f@;
    push_char(f, digit(n % 10));
    proof {
        if n >= 10 {
            assert(f@ =~= old(f)@ + decimal(n as nat));
        } else {
            assert(f@ =~= old(f)@ + decimal(n as nat));
        }
    }
}

/// Whether `c` has the Unicode `White_Space` property (what
/// `char::is_whitespace` tests).
pub open spec fn is_white_space(c: char) -> bool {
    let u: u32 = c as u32;
    (0x9 <= u <= 0xD) || u == 0x20 || u == 0x85 || u == 0xA0 || u == 0x1680 || (0x2000 <= u
        <= 0x200A) || u == 0x2028 || u == 0x2029 || u == 0x202F || u == 0x205F || u == 0x3000
}

/// Tests `is_white_space`.
pub fn white_space(c: char) -> (b: bool)
    ensures
        b == is_white_space(c),
{
    let u: u32 = c as u32;
    (0x9 <= u && u <= 0xD) || u == 0x20 || u == 0x85 || u == 0xA0 || u == 0x1680 || (0x2000 <= u
        && u <= 0x200A) || u == 0x2028 || u == 0x2029 || u == 0x202F || u == 0x205F || u == 0x3000
}

/// The text without its trailing white space (what `str::trim_end` gives).
pub open spec fn trim_end(s: Seq<char>) -> Seq<char>
    decreases s.len(),
{
    if s.len() > 0 && is_white_space(s.last()) {
        trim_end(s.drop_last())
    } else {
        s
    }
}

/// Appends `trim_end(s)`.
pub fn push_trimmed_end(f: &mut String, s: &str)
    ensures
        final(f)@ == old(f)@ + trim_end(s@),
{
    let v = chars_of(s);
    let mut e: usize = v.len();
    assert(v@.take(e as int) =~= v@);
    while e > 0 && white_space(v[e - 1])
        invariant
            e <= v@.len(),
            trim_end(v@) == trim_end(v@.take(e as int)),
        decreases e,
    {
        assert(v@.take(e as int).drop_last() =~= v@.take(e - 1));
        e = e - 1;
    }
    assert(trim_end(v@.take(e as int)) == v@.take(e as int));
    assert(v@.subrange(0, e as int) =~= v@.take(e as int));
    push_chars(f, &v, 0, e);
}

/// The pieces of `s` between occurrences of `c` (what `str::split(c)`
/// yields): at least one piece, empty pieces included.
pub open spec fn split_on(s: Seq<char>, c: char) -> Seq<Seq<char>>
    decreases s.len(),
{
    if s.len() == 0 {
        seq![Seq::<char>::empty()]
    } else {
        let rest = split_on(s.drop_last(), c);
        if s.last() == c {
            rest.push(Seq::<char>::empty())
        } else {
            rest.update(rest.len() - 1, rest.last().push(s.last()))
        }
    }
}

/// The index of the first occurrence of `c` in `s`, if any (what
/// `str::find(c)` gives, counted in characters).
pub open spec fn find_char(s: Seq<char>, c: char) -> Option<int>
    decreases s.len(),
{
    if s.len() == 0 {
        None
    } else if s[0] == c {
        Some(0)
    } else {
        match find_char(s.drop_first(), c) {
            Some(i) => Some(i + 1),
            None => None,
        }
    }
}

/// Characterisation of `find_char` by the first position that holds `c`.
pub proof fn lemma_find_char(s: Seq<char>, c: char, k: int)
    requires
        0 <= k <= s.len(),
        forall|j: int| 0 <= j < k ==> s[j] != c,
    ensures
        k < s.len() && s[k] == c ==> find_char(s, c) == Some(k),
        k == s.len() ==> find_char(s, c) is None,
    decreases k,
{
    if k > 0 {
        let t = s.drop_first();
        assert forall|j: int| 0 <= j < k - 1 implies t[j] != c by {
            assert(t[j] == s[j + 1]);
        }
        lemma_find_char(t, c, k - 1);
    } else {
        if s.len() > 0 {
        }
    }
}

/// A found index is in range and holds `c`, and no earlier position does.
pub proof fn lemma_find_char_found(s: Seq<char>, c: char)
    ensures
        find_char(s, c) matches Some(i) ==> 0 <= i < s.len() && s[i] == c && forall|j: int|
            0 <= j < i ==> s[j] != c,
        find_char(s, c) is None ==> forall|j: int| 0 <= j < s.len() ==> s[j] != c,
    decreases s.len(),
{
    if s.len() > 0 {
        lemma_find_char_found(s.drop_first(), c);
        if s[0] != c {
            assert forall|j: int| 0 < j < s.len() implies s[j] == s.drop_first()[j - 1] by {}
        }
    }
}

/// Finds the first occurrence of `c`.
pub fn find(v: &Vec<char>, c: char) -> (r: Option<usize>)
    ensures
        r matches Some(i) ==> find_char(v@, c) == Some(i as int),
        r is None ==> find_char(v@, c) is None,
{
    let mut i: usize = 0;
    while i < v.len()
        invariant
            i <= v@.len(),
            forall|j: int| 0 <= j < i ==> v@[j] != c,
        decreases v.len() - i,
    {
        if v[i] == c {
            proof {
                lemma_find_char(v@, c, i as int);
            }
            return Some(i);
        }
        i = i + 1;
    }
    proof {
        lemma_find_char(v@, c, i as int);
    }
    None
}

/// Whether `s` ends with `suffix`.
pub open spec fn ends_with(s: Seq<char>, suffix: Seq<char>) -> bool {
    suffix.len() <= s.len() && s.subrange(s.len() - suffix.len(), s.len() as int) == suffix
}

/// Tests whether `v[..end]` ends with `suffix`.
pub fn prefix_ends_with(v: &Vec<char>, end: usize, suffix: &str) -> (b: bool)
    requires
        end <= v@.len(),
    ensures
        b == ends_with(v@.take(end as int), suffix@),
{
    let t = chars_of(suffix);
    if t.len() > end {
        return false;
    }
    let start: usize = end - t.len();
    let mut i: usize = 0;
    while i < t.len()
        invariant
            start + t@.len() == end <= v@.len(),
            t@ == suffix@,
            i <= t@.len(),
            forall|j: int| 0 <= j < i ==> v@[start + j] == t@[j],
        decreases t.len() - i,
    {
        if v[start + i] != t[i] {
            proof {
                let p = v@.take(end as int);
                assert(p.subrange(p.len() - t@.len(), p.len() as int)[i as int] == v@[start + i]);
                assert(p.subrange(p.len() - t@.len(), p.len() as int)[i as int] != t@[i as int]);
            }
            return false;
        }
        i = i + 1;
    }
    proof {
        let p = v@.take(end as int);
        assert(p.subrange(p.len() - t@.len(), p.len() as int) =~= t@);
    }
    true
}

/// Whether `s` holds the two characters `a` `b` next to each other.
pub open spec fn contains_pair(s: Seq<char>, a: char, b: char) -> bool {
    exists|i: int| 0 <= i && i + 1 < s.len() && #[trigger] s[i] == a && s[i + 1] == b
}

/// Tests `contains_pair`.
pub fn has_pair(v: &Vec<char>, a: char, b: char) -> (r: bool)
    ensures
        r == contains_pair(v@, a, b),
{
    let mut i: usize = 0;
    while i < v.len() && v.len() - i > 1
        invariant
            i <= v@.len(),
            forall|j: int| 0 <= j < i && j + 1 < v@.len() ==> !(#[trigger] v@[j] == a && v@[j + 1] == b),
        decreases v.len() - i,
    {
        if v[i] == a && v[i + 1] == b {
            return true;
        }
        i = i + 1;
    }
    false
}

/// `n` spaces.
pub open spec fn spaces(n: nat) -> Seq<char> {
    Seq::new(n, |i: int| ' ')
}

/// Appends `n` spaces.
pub fn push_spaces(f: &mut String, n: usize)
    ensures
        final(f)@ == old(f)@ + spaces(n as nat),
{
    let mut i: usize = 0;
    while i < n
        invariant
            i <= n,
            f@ == old(f)@ + spaces(i as nat),
        decreases n - i,
    {
        push_char(f, ' ');
        assert(spaces((i + 1) as nat) =~= spaces(i as nat).push(' '));
        i = i + 1;
    }
}

/// Replaces every non-overlapping occurrence of `from` (scanning from the
/// left) by `to`, as `str::replace` does for a non-empty pattern.
pub open spec fn replace_all(s: Seq<char>, from: Seq<char>, to: Seq<char>) -> Seq<char>
    recommends
        from.len() > 0,
    decreases s.len(),
{
    if from.len() == 0 || s.len() == 0 {
        s
    } else if from.len() <= s.len() && s.take(from.len() as int) == from {
        to + replace_all(s.skip(from.len() as int), from, to)
    } else {
        seq![s[0]] + replace_all(s.skip(1), from, to)
    }
}

/// Whether `p` occurs in `v` at position `i`.
fn occurs_at(v: &Vec<char>, p: &Vec<char>, i: usize) -> (b: bool)
    requires
        i <= v@.len(),
    ensures
        b == (p@.len() <= v@.skip(i as int).len() && v@.skip(i as int).take(p@.len() as int)
            == p@),
{
    if p.len() > v.len() - i {
        return false;
    }
    let mut j: usize = 0;
    while j < p.len()
        invariant
            i + p@.len() <= v@.len(),
            j <= p@.len(),
            forall|k: int| 0 <= k < j ==> v@[i + k] == p@[k],
        decreases p.len() - j,
    {
        assert(i + j < v@.len());
        assert(v@.len() == v.len());
        if v[i + j] != p[j] {
            assert(v@.skip(i as int).take(p@.len() as int)[j as int] == v@[i + j]);
            return false;
        }
        j = j + 1;
    }
    assert(v@.skip(i as int).take(p@.len() as int) =~= p@);
    true
}

/// Appends `replace_all(s, from, to)`.
pub fn push_replaced(f: &mut String, s: &str, from: &str, to: &str)
    requires
        from@.len() > 0,
    ensures
        final(f)@ == old(f)@ + replace_all(s@, from@, to@),
{
    let v = chars_of(s);
    let p = chars_of(from);
    let mut i: usize = 0;
    assert(v@.skip(0) =~= v@);
    while i < v.len()
        invariant
            i <= v@.len(),
            p@ == from@,
            p@.len() > 0,
            old(f)@ + replace_all(s@, from@, to@) == f@ + replace_all(v@.skip(i as int), from@, to@),
            v@ == s@,
        decreases v.len() - i,
    {
        let ghost rest = v@.skip(i as int);
        if occurs_at(&v, &p, i) {
            push_str(f, to);
            assert(rest.skip(p@.len() as int) =~= v@.skip(i + p@.len()));
            assert(f@ + replace_all(v@.skip(i + p@.len()), from@, to@) =~= old(f)@ + replace_all(
                s@,
                from@,
                to@,
            ));
            i = i + p.len();
        } else {
            push_char(f, v[i]);
            assert(rest.skip(1) =~= v@.skip(i + 1));
            assert(rest[0] == v@[i as int]);
            assert(f@ + replace_all(v@.skip(i + 1), from@, to@) =~= old(f)@ + replace_all(
                s@,
                from@,
                to@,
            ));
            i = i + 1;
        }
    }
    assert(v@.skip(i as int) =~= Seq::<char>::empty());
    assert(f@ =~= old(f)@ + replace_all(s@, from@, to@));
}

} // verus!
