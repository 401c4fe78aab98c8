//! What the generated API clients and servers share: the wrappers that tag
//! server parameters, URL encoding, identifiers, conversions of vectors, and
//! the query strings and URIs of client requests.

use vstd::prelude::*;
use vstd::arithmetic::power::pow;
use crate::text::{chars_of, decimal, push_char, push_decimal, push_str, split_on, string_of};

verus! {

/* ---------------------------------------------------------------------- */
/* Parameter wrappers                                                     */
/* ---------------------------------------------------------------------- */

/// Wrapper type used as tag to easily distinguish the 3 different parameter types:
/// 1. Path 2. Query 3. Body
/// Example usage:
/// fn delete_resource(Path((p1, p2)): Path<(String, u64)>) { ... }
pub struct Path<T>(pub T);

impl<T> Path<T> {
    /// Deconstruct to an inner value
    pub fn into_inner(self) -> (r: T)
        ensures
            r == self.0,
    {
        self.0
    }
}

/// Wrapper type used as tag to easily distinguish the 3 different parameter types:
/// 1. Path 2. Query 3. Body
pub struct Query<T>(pub T);

impl<T> Query<T> {
    /// Deconstruct to an inner value
    pub fn into_inner(self) -> (r: T)
        ensures
            r == self.0,
    {
        self.0
    }
}

/// Wrapper type used as tag to easily distinguish the 3 different parameter types:
/// 1. Path 2. Query 3. Body
pub struct Body<T>(pub T);

impl<T> Body<T> {
    /// Deconstruct to an inner value
    pub fn into_inner(self) -> (r: T)
        ensures
            r == self.0,
    {
        self.0
    }
}

/* ---------------------------------------------------------------------- */
/* URL encoding                                                           */
/* ---------------------------------------------------------------------- */

/// Whether `application/x-www-form-urlencoded` serialization keeps this byte
/// as it is: `*`, `-`, `.`, `_`, ASCII digits and ASCII letters.
pub open spec fn byte_unchanged(b: u8) -> bool {
    b == 42 || b == 45 || b == 46 || b == 95 || (48 <= b && b <= 57) || (65 <= b && b <= 90) || (97
        <= b && b <= 122)
}

/// The upper-case hexadecimal digit for `d` (0 to 15).
pub open spec fn hex_upper(d: nat) -> char {
    if d < 10 {
        crate::text::digit_char(d)
    } else if d == 10 {
        'A'
    } else if d == 11 {
        'B'
    } else if d == 12 {
        'C'
    } else if d == 13 {
        'D'
    } else if d == 14 {
        'E'
    } else {
        'F'
    }
}

/// The serialization of one byte: kept, `+` for a space, else `%` and two
/// upper-case hexadecimal digits.
pub open spec fn form_encoded_byte(b: u8) -> Seq<char> {
    if byte_unchanged(b) {
        seq![b as char]
    } else if b == 32 {
        seq!['+']
    } else {
        seq!['%', hex_upper((b / 16) as nat), hex_upper((b % 16) as nat)]
    }
}

/// The serialization of a byte string, byte by byte.
pub open spec fn form_encoded(bytes: Seq<u8>) -> Seq<char>
    decreases bytes.len(),
{
    if bytes.len() == 0 {
        Seq::empty()
    } else {
        form_encoded(bytes.drop_last()) + form_encoded_byte(bytes.last())
    }
}

/// Calls `url::form_urlencoded::byte_serialize` on the UTF-8 bytes of `s` and
/// collects the pieces. As the crate's source shows, each byte is kept when it
/// is `*`, `-`, `.`, `_` or an ASCII letter or digit, a space becomes `+`, and
/// any other byte becomes `%` and its two upper-case hexadecimal digits.
#[verifier::external_body]
fn byte_serialize(s: &str) -> (r: String)
    ensures
        r@ == form_encoded(vstd::utf8::encode_utf8(s@)),
{
    ::url::form_urlencoded::byte_serialize(s.as_bytes()).collect()
}

/// Whether `c` is a hexadecimal digit.
pub open spec fn is_hex_digit(c: char) -> bool {
    ('0' <= c && c <= '9') || ('A' <= c && c <= 'F') || ('a' <= c && c <= 'f')
}

/// The value of a hexadecimal digit.
pub open spec fn hex_value(c: char) -> nat {
    if '0' <= c && c <= '9' {
        (c as int - '0' as int) as nat
    } else if 'A' <= c && c <= 'F' {
        (c as int - 'A' as int + 10) as nat
    } else {
        (c as int - 'a' as int + 10) as nat
    }
}

/// The bytes of a form-urlencoded text, read from the front: `%` and two
/// hexadecimal digits give the byte they spell, `+` gives a space, and any
/// other character gives its own code.
pub open spec fn form_decoded(s: Seq<char>) -> Seq<u8>
    decreases s.len(),
{
    if s.len() == 0 {
        Seq::empty()
    } else if s[0] == '%' && s.len() >= 3 && is_hex_digit(s[1]) && is_hex_digit(s[2]) {
        seq![(hex_value(s[1]) * 16 + hex_value(s[2])) as u8] + form_decoded(s.subrange(3, s.len() as int))
    } else if s[0] == '+' {
        seq![32u8] + form_decoded(s.drop_first())
    } else {
        seq![s[0] as u8] + form_decoded(s.drop_first())
    }
}

proof fn lemma_hex_upper(d: nat)
    requires
        d < 16,
    ensures
        is_hex_digit(hex_upper(d)),
        hex_value(hex_upper(d)) == d,
{
}

proof fn lemma_form_encoded_front(b: u8, rest: Seq<u8>)
    ensures
        form_encoded(seq![b] + rest) == form_encoded_byte(b) + form_encoded(rest),
    decreases rest.len(),
{
    if rest.len() == 0 {
        assert((seq![b] + rest).drop_last() =~= Seq::<u8>::empty());
        assert((seq![b] + rest).last() == b);
        assert(form_encoded(rest) == form_encoded(Seq::<u8>::empty()));
        assert(form_encoded((seq![b] + rest).drop_last()) == form_encoded(Seq::<u8>::empty()));
        assert(form_encoded(seq![b] + rest) =~= form_encoded_byte(b) + form_encoded(rest));
    } else {
        lemma_form_encoded_front(b, rest.drop_last());
        assert((seq![b] + rest).drop_last() =~= seq![b] + rest.drop_last());
        assert((seq![b] + rest).last() == rest.last());
        assert(form_encoded(seq![b] + rest) =~= form_encoded_byte(b) + form_encoded(rest));
    }
}

proof fn lemma_decode_one(b: u8, t: Seq<char>)
    ensures
        form_decoded(form_encoded_byte(b) + t) == seq![b] + form_decoded(t),
{
    let s = form_encoded_byte(b) + t;
    if byte_unchanged(b) {
        assert(s[0] == b as char);
        assert(s.drop_first() =~= t);
        assert((b as char) as u8 == b);
    } else if b == 32 {
        assert(s.drop_first() =~= t);
    } else {
        let hi = (b / 16) as nat;
        let lo = (b % 16) as nat;
        lemma_hex_upper(hi);
        lemma_hex_upper(lo);
        assert(s[1] == hex_upper(hi) && s[2] == hex_upper(lo));
        assert(s.subrange(3, s.len() as int) =~= t);
        assert(hi * 16 + lo == b) by (nonlinear_arith)
            requires
                hi == (b / 16) as nat,
                lo == (b % 16) as nat,
        ;
    }
}

/// **Law.** Decoding a form-urlencoded serialization gives back the bytes
/// that were serialized; with `urlencode`'s contract, decoding its result
/// gives back the UTF-8 bytes of its input.
pub proof fn law_form_decoding_inverts_encoding(bytes: Seq<u8>)
    ensures
        form_decoded(form_encoded(bytes)) == bytes,
    decreases bytes.len(),
{
    if bytes.len() > 0 {
        let rest = bytes.drop_first();
        assert(bytes =~= seq![bytes[0]] + rest);
        lemma_form_encoded_front(bytes[0], rest);
        lemma_decode_one(bytes[0], form_encoded(rest));
        law_form_decoding_inverts_encoding(rest);
        assert(seq![bytes[0]] + rest =~= bytes);
    }
}

/// The characters a form-urlencoded serialization is made of: those of the
/// bytes kept as they are, `+` and `%`.
pub open spec fn is_form_char(c: char) -> bool {
    c == '+' || c == '%' || c == '*' || c == '-' || c == '.' || c == '_' || ('0' <= c && c <= '9') || ('A' <= c
        && c <= 'Z') || ('a' <= c && c <= 'z')
}

/// The bytes read as characters, one each.
pub open spec fn bytes_as_chars(bytes: Seq<u8>) -> Seq<char> {
    bytes.map_values(|b: u8| b as char)
}

proof fn lemma_encoded_byte_chars(b: u8)
    ensures
        forall|i: int| 0 <= i < form_encoded_byte(b).len() ==> is_form_char(#[trigger] form_encoded_byte(b)[i]),
        form_encoded_byte(b).len() == 1 || form_encoded_byte(b).len() == 3,
        form_encoded_byte(b).len() == 1 <==> (byte_unchanged(b) || b == 32),
{
    if !byte_unchanged(b) && b != 32 {
        lemma_hex_upper((b / 16) as nat);
        lemma_hex_upper((b % 16) as nat);
    }
}

proof fn lemma_encoded_len(bytes: Seq<u8>)
    ensures
        form_encoded(bytes).len() >= bytes.len(),
    decreases bytes.len(),
{
    if bytes.len() > 0 {
        lemma_encoded_len(bytes.drop_last());
        lemma_encoded_byte_chars(bytes.last());
    }
}

/// **Law.** A form-urlencoded serialization is made only of `+`, `%` and
/// the characters of the bytes kept as they are; and it is the bytes
/// themselves, read as characters, exactly when every byte is kept as it is.
pub proof fn law_form_encoding_alphabet(bytes: Seq<u8>)
    ensures
        forall|i: int| 0 <= i < form_encoded(bytes).len() ==> is_form_char(#[trigger] form_encoded(bytes)[i]),
        (form_encoded(bytes) == bytes_as_chars(bytes)) <==> (forall|k: int|
            0 <= k < bytes.len() ==> byte_unchanged(#[trigger] bytes[k])),
    decreases bytes.len(),
{
    if bytes.len() == 0 {
        assert(bytes_as_chars(bytes) =~= form_encoded(bytes));
    } else {
        let init = bytes.drop_last();
        let b = bytes.last();
        law_form_encoding_alphabet(init);
        lemma_encoded_byte_chars(b);
        lemma_encoded_len(init);
        let fe = form_encoded(bytes);
        assert(fe == form_encoded(init) + form_encoded_byte(b));
        assert forall|i: int| 0 <= i < fe.len() implies is_form_char(#[trigger] fe[i]) by {
            if i < form_encoded(init).len() {
                assert(fe[i] == form_encoded(init)[i]);
            } else {
                assert(fe[i] == form_encoded_byte(b)[i - form_encoded(init).len()]);
            }
        }
        assert(bytes_as_chars(bytes) =~= bytes_as_chars(init).push(b as char));
        if forall|k: int| 0 <= k < bytes.len() ==> byte_unchanged(#[trigger] bytes[k]) {
            assert forall|k: int| 0 <= k < init.len() implies byte_unchanged(#[trigger] init[k]) by {
                assert(init[k] == bytes[k]);
            }
            assert(byte_unchanged(bytes[bytes.len() - 1]));
            assert(fe =~= bytes_as_chars(bytes));
        }
        if fe == bytes_as_chars(bytes) {
            assert(fe.len() == init.len() + 1);
            assert(form_encoded_byte(b).len() == 1);
            assert(form_encoded(init) =~= fe.take(init.len() as int));
            assert(bytes_as_chars(init) =~= bytes_as_chars(bytes).take(init.len() as int));
            assert(fe[init.len() as int] == form_encoded_byte(b)[0]);
            assert(b != 32u8);
            assert forall|k: int| 0 <= k < bytes.len() implies byte_unchanged(#[trigger] bytes[k]) by {
                if k < init.len() {
                    assert(bytes[k] == init[k]);
                }
            }
        }
    }
}

/// Encode string to use in a URL.
pub fn urlencode(s: &str) -> (r: String)
    ensures
        r@ == form_encoded(vstd::utf8::encode_utf8(s@)),
{
    byte_serialize(s)
}

/* ---------------------------------------------------------------------- */
/* Identifiers                                                            */
/* ---------------------------------------------------------------------- */

/// A universally unique identifier, held as its 128-bit value (most
/// significant byte first, as `uuid::Uuid::from_u128` reads it).
#[derive(Debug, Clone, Copy, PartialEq, Eq, Structural)]
pub struct Uuid {
    /// The value.
    pub value: u128,
}

/// The lower-case hexadecimal digit for `d` (0 to 15).
pub open spec fn hex_lower(d: nat) -> char {
    if d < 10 {
        crate::text::digit_char(d)
    } else if d == 10 {
        'a'
    } else if d == 11 {
        'b'
    } else if d == 12 {
        'c'
    } else if d == 13 {
        'd'
    } else if d == 14 {
        'e'
    } else {
        'f'
    }
}

/// The `k`-th of the 32 hexadecimal digits of `v`, most significant first.
pub open spec fn uuid_digit(v: u128, k: int) -> nat {
    ((v as int / pow(16, (31 - k) as nat)) % 16) as nat
}

/// The number of hyphens before position `i` of the hyphenated form.
pub open spec fn hyphens_before(i: int) -> int {
    if i < 8 {
        0
    } else if i < 13 {
        1
    } else if i < 18 {
        2
    } else if i < 23 {
        3
    } else {
        4
    }
}

/// The hyphenated lower-case form of an identifier: its 32 hexadecimal
/// digits in groups of 8, 4, 4, 4 and 12, joined by `-`.
pub open spec fn uuid_text(v: u128) -> Seq<char> {
    Seq::new(
        36,
        |i: int|
            if i == 8 || i == 13 || i == 18 || i == 23 {
                '-'
            } else {
                hex_lower(uuid_digit(v, i - hyphens_before(i)))
            },
    )
}

/// Calls `uuid::Uuid::from_u128(v).to_string()`. As the crate's source shows,
/// the `Display` form of a `Uuid` is the hyphenated lower-case form of its
/// big-endian bytes.
#[verifier::external_body]
fn uuid_to_string(v: u128) -> (r: String)
    ensures
        r@ == uuid_text(v),
{
    ::uuid::Uuid::from_u128(v).to_string()
}

impl Uuid {
    /// The hyphenated lower-case form of this identifier.
    pub open spec fn spec_text(self) -> Seq<char> {
        uuid_text(self.value)
    }

    /// Formats this identifier as `uuid::Uuid` does.
    pub fn to_string(&self) -> (r: String)
        ensures
            r@ == self.spec_text(),
    {
        uuid_to_string(self.value)
    }
}

/* ---------------------------------------------------------------------- */
/* Conversions of vectors                                                 */
/* ---------------------------------------------------------------------- */

/// Whether each item of `to` is what `Into::into` may give for the item of
/// `from` at the same place.
pub open spec fn converted<F: Into<T>, T>(from: Seq<F>, to: Seq<T>) -> bool {
    &&& to.len() == from.len()
    &&& forall|i: int| 0 <= i < from.len() ==> call_ensures(F::into, (from[i],), #[trigger] to[i])
}

/// Converts the items of a vector one by one.
fn convert_all<F: Into<T>, T>(v: Vec<F>) -> (r: Vec<T>)
    ensures
        converted(v@, r@),
{
    let ghost items = v@;
    let mut out: Vec<T> = Vec::new();
    for x in it: v.into_iter()
        invariant
            it.seq() == items,
            out@.len() == it.index(),
            forall|i: int| 0 <= i < out@.len() ==> call_ensures(F::into, (items[i],), #[trigger] out@[i]),
    {
        out.push(x.into());
    }
    out
}

/// Helper to convert from Vec<F> into Vec<T>.
pub trait IntoVec<T>: Sized {
    /// Performs the conversion.
    fn into_vec(self) -> Vec<T>;
}

impl<F: Into<T>, T> IntoVec<T> for Vec<F> {
    fn into_vec(self) -> (r: Vec<T>)
        ensures
            converted(self@, r@),
    {
        convert_all(self)
    }
}

/// Helper to convert from Vec<F> or Option<Vec<F>> into Option<Vec<T>>.
pub trait IntoOptVec<T>: Sized {
    /// Performs the conversion.
    fn into_opt_vec(self) -> Option<Vec<T>>;
}

impl<F: Into<T>, T> IntoOptVec<T> for Vec<F> {
    fn into_opt_vec(self) -> (r: Option<Vec<T>>)
        ensures
            r matches Some(v) && converted(self@, v@),
    {
        Some(convert_all(self))
    }
}

impl<F: Into<T>, T> IntoOptVec<T> for Option<Vec<F>> {
    fn into_opt_vec(self) -> (r: Option<Vec<T>>)
        ensures
            self is None ==> r is None,
            self matches Some(s) ==> r matches Some(v) && converted(s@, v@),
    {
        match self {
            Some(s) => Some(convert_all(s)),
            None => None,
        }
    }
}

/* ---------------------------------------------------------------------- */
/* Query strings and URIs                                                 */
/* ---------------------------------------------------------------------- */

/// A URL-encoded text.
pub open spec fn encoded(s: Seq<char>) -> Seq<char> {
    form_encoded(vstd::utf8::encode_utf8(s))
}

/// The decimal form of an integer, with `-` before a negative one.
pub open spec fn signed_decimal(n: int) -> Seq<char> {
    if n < 0 {
        seq!['-'] + decimal((-n) as nat)
    } else {
        decimal(n as nat)
    }
}

/// The text of a boolean (`true` or `false`).
pub open spec fn bool_text(b: bool) -> Seq<char> {
    if b {
        "true"@
    } else {
        "false"@
    }
}

/// The items joined by `sep`.
pub open spec fn joined(items: Seq<Seq<char>>, sep: Seq<char>) -> Seq<char>
    decreases items.len(),
{
    if items.len() == 0 {
        Seq::empty()
    } else if items.len() == 1 {
        items[0]
    } else {
        joined(items.drop_last(), sep) + sep + items.last()
    }
}

/// The query after appending `name=value`: the pair alone when there is no
/// query yet, else the query, `&` and the pair.
pub open spec fn appended_query(query: Option<Seq<char>>, name: Seq<char>, value: Seq<char>) -> Seq<char> {
    match query {
        None => name + seq!['='] + value,
        Some(p) => p + seq!['&'] + name + seq!['='] + value,
    }
}

/// The query made of the given parameters, in order, leaving out those
/// without a value; none when no parameter has a value.
pub open spec fn query_of(params: Seq<(Seq<char>, Option<Seq<char>>)>) -> Option<Seq<char>>
    decreases params.len(),
{
    if params.len() == 0 {
        None
    } else {
        let prev = query_of(params.drop_last());
        match params.last().1 {
            None => prev,
            Some(v) => Some(appended_query(prev, params.last().0, v)),
        }
    }
}

/// A URI: the base, the path, and `?` with the query when there is one.
pub open spec fn uri_of(base: Seq<char>, path: Seq<char>, params: Seq<(Seq<char>, Option<Seq<char>>)>) -> Seq<char> {
    match query_of(params) {
        None => base + path,
        Some(q) => base + path + seq!['?'] + q,
    }
}

/// The view of a parameter with an optional value.
pub open spec fn param_view(p: (&str, Option<String>)) -> (Seq<char>, Option<Seq<char>>) {
    (p.0@, match p.1 {
        Some(s) => Some(s@),
        None => None,
    })
}

/// The views of parameters with optional values.
pub open spec fn param_views(ps: Seq<(&str, Option<String>)>) -> Seq<(Seq<char>, Option<Seq<char>>)> {
    Seq::new(ps.len(), |i: int| param_view(ps[i]))
}

/// Formats an integer as `to_string` does.
pub fn signed_text(n: isize) -> (r: String)
    ensures
        r@ == signed_decimal(n as int),
{
    let mut s = String::new();
    if n < 0 {
        push_char(&mut s, '-');
        let m: usize = (-(n + 1)) as usize;
        push_decimal(&mut s, m + 1);
    } else {
        push_decimal(&mut s, n as usize);
    }
    s
}

/// Formats a boolean as `to_string` does.
pub fn bool_string(b: bool) -> (r: String)
    ensures
        r@ == bool_text(b),
{
    let mut s = String::new();
    if b {
        push_str(&mut s, "true");
    } else {
        push_str(&mut s, "false");
    }
    s
}

/// The views of owned strings.
pub open spec fn string_views(v: Seq<String>) -> Seq<Seq<char>> {
    Seq::new(v.len(), |i: int| v[i]@)
}

/// Joins the items with `sep`, as `[String]::join` does.
pub fn join(items: &Vec<String>, sep: &str) -> (r: String)
    ensures
        r@ == joined(string_views(items@), sep@),
{
    let mut s = String::new();
    let mut i: usize = 0;
    while i < items.len()
        invariant
            i <= items@.len(),
            s@ == joined(string_views(items@.take(i as int)), sep@),
        decreases items.len() - i,
    {
        assert(string_views(items@.take(i + 1)).drop_last() =~= string_views(items@.take(i as int)));
        if i > 0 {
            push_str(&mut s, sep);
        }
        push_str(&mut s, items[i].as_str());
        i = i + 1;
    }
    assert(items@.take(items@.len() as int) =~= items@);
    s
}

/// Appends `name=value` to a query, as the generated clients do.
pub fn append_query(query: Option<String>, name: &str, value: &str) -> (r: String)
    ensures
        r@ == appended_query(
            match query {
                Some(q) => Some(q@),
                None => None,
            },
            name@,
            value@,
        ),
{
    let mut s = match query {
        Some(q) => {
            let mut p = q;
            push_char(&mut p, '&');
            p
        },
        None => String::new(),
    };
    push_str(&mut s, name);
    push_char(&mut s, '=');
    push_str(&mut s, value);
    s
}

/// Builds a URI from a base, a path and parameters with optional values.
pub fn build_uri(base: &str, path: &str, params: &Vec<(&str, Option<String>)>) -> (r: String)
    ensures
        r@ == uri_of(base@, path@, param_views(params@)),
{
    let mut query: Option<String> = None;
    let mut i: usize = 0;
    while i < params.len()
        invariant
            i <= params@.len(),
            (match query {
                Some(q) => Some(q@),
                None => None,
            }) == query_of(param_views(params@.take(i as int))),
        decreases params.len() - i,
    {
        assert(param_views(params@.take(i + 1)).drop_last() =~= param_views(params@.take(i as int)));
        assert(param_views(params@.take(i + 1)).last() == param_view(params@[i as int]));
        match &params[i].1 {
            Some(v) => {
                query = Some(append_query(query, params[i].0, v.as_str()));
            },
            None => {},
        }
        i = i + 1;
    }
    assert(params@.take(params@.len() as int) =~= params@);
    let mut uri = String::new();
    push_str(&mut uri, base);
    push_str(&mut uri, path);
    match query {
        Some(q) => {
            push_char(&mut uri, '?');
            push_str(&mut uri, q.as_str());
        },
        None => {},
    }
    uri
}

/* ---------------------------------------------------------------------- */
/* Lists given as text in a query                                        */
/* ---------------------------------------------------------------------- */

/// The items of a list given as text: none for the empty text, else the
/// pieces between commas.
pub open spec fn stringified_items(s: Seq<char>) -> Seq<Seq<char>> {
    if s.len() == 0 {
        Seq::empty()
    } else {
        split_on(s, ',')
    }
}

proof fn lemma_split_plain(b: Seq<char>, c: char)
    requires
        !b.contains(c),
    ensures
        split_on(b, c) == seq![b],
    decreases b.len(),
{
    if b.len() > 0 {
        assert(!b.drop_last().contains(c)) by {
            if b.drop_last().contains(c) {
                let k = choose|k: int| 0 <= k < b.drop_last().len() && b.drop_last()[k] == c;
                assert(b[k] == c);
            }
        }
        lemma_split_plain(b.drop_last(), c);
        assert(b[b.len() - 1] != c);
        assert(b.drop_last().push(b.last()) =~= b);
        assert(split_on(b, c) =~= seq![b]);
    } else {
        assert(b =~= Seq::<char>::empty());
    }
}

proof fn lemma_split_after(x: Seq<char>, b: Seq<char>, c: char)
    requires
        !b.contains(c),
    ensures
        split_on(x.push(c) + b, c) == split_on(x, c).push(b),
    decreases b.len(),
{
    let s = x.push(c) + b;
    if b.len() == 0 {
        assert(s =~= x.push(c));
        assert(s.drop_last() =~= x);
        assert(b =~= Seq::<char>::empty());
    } else {
        assert(!b.drop_last().contains(c)) by {
            if b.drop_last().contains(c) {
                let k = choose|k: int| 0 <= k < b.drop_last().len() && b.drop_last()[k] == c;
                assert(b[k] == c);
            }
        }
        lemma_split_after(x, b.drop_last(), c);
        assert(s.drop_last() =~= x.push(c) + b.drop_last());
        assert(s.last() == b[b.len() - 1]);
        assert(b.drop_last().push(b.last()) =~= b);
        assert(split_on(s, c) =~= split_on(x, c).push(b));
    }
}

proof fn lemma_split_joined(items: Seq<Seq<char>>)
    requires
        items.len() >= 1,
        forall|k: int| 0 <= k < items.len() ==> !(#[trigger] items[k]).contains(','),
    ensures
        split_on(joined(items, seq![',']), ',') == items,
    decreases items.len(),
{
    if items.len() == 1 {
        lemma_split_plain(items[0], ',');
        assert(items =~= seq![items[0]]);
    } else {
        let init = items.drop_last();
        assert forall|k: int| 0 <= k < init.len() implies !(#[trigger] init[k]).contains(',') by {
            assert(init[k] == items[k]);
        }
        lemma_split_joined(init);
        assert(!items[items.len() - 1].contains(','));
        lemma_split_after(joined(init, seq![',']), items.last(), ',');
        assert(joined(init, seq![',']) + seq![','] + items.last() =~= joined(init, seq![',']).push(',') + items.last());
        assert(init.push(items.last()) =~= items);
    }
}

/// **Law.** Reading a list given as text undoes joining its items with `,`,
/// for items without a comma, except for a single empty item (whose join
/// is the empty text, read as no item at all).
pub proof fn law_stringified_list_reverses_join(items: Seq<Seq<char>>)
    requires
        forall|k: int| 0 <= k < items.len() ==> !(#[trigger] items[k]).contains(','),
        !(items.len() == 1 && items[0].len() == 0),
    ensures
        stringified_items(joined(items, seq![','])) == items,
{
    if items.len() == 0 {
        assert(items =~= Seq::<Seq<char>>::empty());
    } else {
        lemma_split_joined(items);
        if items.len() >= 2 {
            assert(joined(items, seq![',']).len() >= 1);
        }
    }
}

/// Splits a list given as text (`a,b,c`) into the texts of its items, each
/// of which is then read as an item; the empty text is the empty list.
pub fn deserialize_stringified_list(v: &str) -> (r: Vec<String>)
    ensures
        string_views(r@) == stringified_items(v@),
{
    let mut out: Vec<String> = Vec::new();
    let chars = chars_of(v);
    if chars.len() == 0 {
        assert(string_views(out@) =~= Seq::<Seq<char>>::empty());
        return out;
    }
    let mut cur: Vec<char> = Vec::new();
    let mut i: usize = 0;
    assert(chars@.take(0) =~= Seq::<char>::empty());
    assert(split_on(Seq::<char>::empty(), ',') =~= seq![Seq::<char>::empty()]);
    while i < chars.len()
        invariant
            i <= chars@.len(),
            chars@ == v@,
            split_on(chars@.take(i as int), ',') =~= string_views(out@).push(cur@),
        decreases chars.len() - i,
    {
        let c = chars[i];
        assert(chars@.take(i + 1).drop_last() =~= chars@.take(i as int));
        assert(chars@.take(i + 1).last() == c);
        if c == ',' {
            let ghost before = string_views(out@);
            let piece = string_of(&cur);
            out.push(piece);
            assert(string_views(out@) =~= before.push(cur@));
            cur = Vec::new();
        } else {
            let ghost old_cur = cur@;
            cur.push(c);
            proof {
                let prev = string_views(out@).push(old_cur);
                assert(prev.update(prev.len() - 1, prev.last().push(c)) =~= string_views(out@).push(cur@));
            }
        }
        i = i + 1;
    }
    assert(chars@.take(chars@.len() as int) =~= chars@);
    let ghost before = string_views(out@);
    let last = string_of(&cur);
    out.push(last);
    assert(string_views(out@) =~= before.push(cur@));
    out
}

/// Splits a list given as text into the texts of its items, none when
/// there is no item.
pub fn deserialize_option_stringified_list(v: &str) -> (r: Option<Vec<String>>)
    ensures
        match r {
            None => stringified_items(v@).len() == 0,
            Some(l) => l@.len() > 0 && string_views(l@) == stringified_items(v@),
        },
{
    let list = deserialize_stringified_list(v);
    if list.len() == 0 {
        None
    } else {
        Some(list)
    }
}

/* ---------------------------------------------------------------------- */
/* Errors of the server handlers                                          */
/* ---------------------------------------------------------------------- */

/// An error a server handler answers with: the HTTP status code and the
/// body sent with it.
#[derive(Debug)]
pub struct RestError<T> {
    status_code: u16,
    error_response: T,
}

impl<T> RestError<T> {
    /// The status code of the error.
    pub closed spec fn spec_status_code(self) -> u16 {
        self.status_code
    }

    /// The body of the error.
    pub closed spec fn spec_error_response(self) -> T {
        self.error_response
    }

    /// An error with the given status code and body.
    pub fn new(status_code: u16, error_response: T) -> (r: Self)
        ensures
            r.spec_status_code() == status_code,
            r.spec_error_response() == error_response,
    {
        Self { status_code, error_response }
    }

    /// The status code the error is answered with.
    pub fn status_code(&self) -> (r: u16)
        ensures
            r == self.spec_status_code(),
    {
        self.status_code
    }

    /// The body the error is answered with.
    pub fn error_response(&self) -> (r: &T)
        ensures
            *r == self.spec_error_response(),
    {
        &self.error_response
    }
}

} // verus!
