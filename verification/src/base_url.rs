//! The base URL of the generated client: set from a URL, then given the
//! host, port and base path of the specification.

use vstd::prelude::*;
use crate::definitions::{error_spec, split, split_text, views, ErrorSpec, PaperClipError};
use crate::text::{chars_of, push_str};

verus! {

/* ---------------------------------------------------------------------- */
/* What the `url` crate computes                                          */
/* ---------------------------------------------------------------------- */

/// What `url::Url::parse` gives for a text: the URL's serialization, or the
/// text of the error.
pub uninterp spec fn url_parsed(s: Seq<char>) -> Result<Seq<char>, Seq<char>>;

/// The text of the error of `url::Host::parse` for a text, none when it
/// parses.
pub uninterp spec fn host_error(s: Seq<char>) -> Option<Seq<char>>;

/// The serialization of the URL `url` (parsed again) after `set_host` with
/// `host`; none when that call (or parsing `url`) fails.
pub uninterp spec fn url_with_host(url: Seq<char>, host: Seq<char>) -> Option<Seq<char>>;

/// The serialization of the URL `url` (parsed again) after `set_port` with
/// `port`; none when that call (or parsing `url`) fails.
pub uninterp spec fn url_with_port(url: Seq<char>, port: u16) -> Option<Seq<char>>;

/// The serialization of the URL `url` (parsed again) after `set_path` with
/// `path`; none when parsing `url` fails.
pub uninterp spec fn url_with_path(url: Seq<char>, path: Seq<char>) -> Option<Seq<char>>;

/// Calls `url::Url::parse` and gives the URL's serialization (its `Display`
/// form, which is `as_str`), or the `Display` text of the error.
#[verifier::external_body]
fn parse_url(s: &str) -> (r: Result<String, String>)
    ensures
        match r {
            Ok(t) => url_parsed(s@) == Ok::<Seq<char>, Seq<char>>(t@),
            Err(e) => url_parsed(s@) == Err::<Seq<char>, Seq<char>>(e@),
        },
{
    match ::url::Url::parse(s) {
        Ok(u) => Ok(u.to_string()),
        Err(e) => Err(e.to_string()),
    }
}

/// Calls `url::Host::parse` and gives the `Display` text of its error, if
/// any.
#[verifier::external_body]
fn parse_host_error(s: &str) -> (r: Option<String>)
    ensures
        match r {
            Some(e) => host_error(s@) == Some(e@),
            None => host_error(s@) is None,
        },
{
    match ::url::Host::<String>::parse(s) {
        Ok(_) => None,
        Err(e) => Some(e.to_string()),
    }
}

/// Parses the serialization `url` with `url::Url::parse`, calls
/// `Url::set_host(Some(host))` on it and gives the new serialization.
#[verifier::external_body]
fn set_url_host(url: &str, host: &str) -> (r: Option<String>)
    ensures
        match r {
            Some(t) => url_with_host(url@, host@) == Some(t@),
            None => url_with_host(url@, host@) is None,
        },
{
    match ::url::Url::parse(url) {
        Ok(mut u) => match u.set_host(Some(host)) {
            Ok(()) => Some(u.to_string()),
            Err(_) => None,
        },
        Err(_) => None,
    }
}

/// Parses the serialization `url` with `url::Url::parse`, calls
/// `Url::set_port(Some(port))` on it and gives the new serialization.
#[verifier::external_body]
fn set_url_port(url: &str, port: u16) -> (r: Option<String>)
    ensures
        match r {
            Some(t) => url_with_port(url@, port) == Some(t@),
            None => url_with_port(url@, port) is None,
        },
{
    match ::url::Url::parse(url) {
        Ok(mut u) => match u.set_port(Some(port)) {
            Ok(()) => Some(u.to_string()),
            Err(()) => None,
        },
        Err(_) => None,
    }
}

/// Parses the serialization `url` with `url::Url::parse`, calls
/// `Url::set_path(path)` on it and gives the new serialization.
#[verifier::external_body]
fn set_url_path(url: &str, path: &str) -> (r: Option<String>)
    ensures
        match r {
            Some(t) => url_with_path(url@, path@) == Some(t@),
            None => url_with_path(url@, path@) is None,
        },
{
    match ::url::Url::parse(url) {
        Ok(mut u) => {
            u.set_path(path);
            Some(u.to_string())
        },
        Err(_) => None,
    }
}

/// The `Display` text of `url::ParseError::InvalidPort`, which the crate's
/// source gives as `invalid port number`.
#[verifier::external_body]
fn invalid_port_text() -> (r: String)
    ensures
        r@ == "invalid port number"@,
{
    ::url::ParseError::InvalidPort.to_string()
}

impl Default for BaseUrl {
    /// The default base URL, `https://example.com/`.
    fn default() -> (r: BaseUrl)
        ensures
            r.spec_text() == "https://example.com/"@,
    {
        BaseUrl::new()
    }
}

/* ---------------------------------------------------------------------- */
/* Ports                                                                  */
/* ---------------------------------------------------------------------- */

/// The value of decimal digits.
pub open spec fn digits_value(s: Seq<char>) -> int
    decreases s.len(),
{
    if s.len() == 0 {
        0
    } else {
        digits_value(s.drop_last()) * 10 + (s.last() as int - '0' as int)
    }
}

/// Whether every character is an ASCII digit.
pub open spec fn all_digits(s: Seq<char>) -> bool {
    forall|i: int| 0 <= i < s.len() ==> '0' <= #[trigger] s[i] <= '9'
}

/// What `str::parse::<u16>` gives: an optional `+` followed by at least one
/// digit, of a value that fits; none otherwise.
pub open spec fn u16_of(s: Seq<char>) -> Option<u16> {
    let d = if s.len() > 0 && s[0] == '+' {
        s.skip(1)
    } else {
        s
    };
    if d.len() > 0 && all_digits(d) && digits_value(d) <= u16::MAX {
        Some(digits_value(d) as u16)
    } else {
        None
    }
}

/// Parses a port as `str::parse::<u16>` does.
pub fn parse_u16(s: &str) -> (r: Option<u16>)
    ensures
        r == u16_of(s@),
{
    let v = chars_of(s);
    let start: usize = if v.len() > 0 && v[0] == '+' {
        1
    } else {
        0
    };
    let ghost d = if s@.len() > 0 && s@[0] == '+' {
        s@.skip(1)
    } else {
        s@
    };
    assert(d =~= v@.skip(start as int));
    if start >= v.len() {
        return None;
    }
    let mut value: u32 = 0;
    let mut i: usize = start;
    assert(v@.subrange(start as int, start as int) =~= Seq::<char>::empty());
    while i < v.len()
        invariant
            start <= i <= v@.len(),
            v@ == s@,
            d == (if s@.len() > 0 && s@[0] == '+' {
                s@.skip(1)
            } else {
                s@
            }),
            d == v@.skip(start as int),
            all_digits(v@.subrange(start as int, i as int)),
            value == digits_value(v@.subrange(start as int, i as int)),
            value <= u16::MAX,
        decreases v.len() - i,
    {
        let c = v[i];
        let ghost pre = v@.subrange(start as int, i as int);
        let ghost next = v@.subrange(start as int, i + 1);
        assert(next.drop_last() =~= pre);
        assert(next.last() == c);
        if !('0' <= c && c <= '9') {
            proof {
                assert(d[i - start] == c);
                assert(!all_digits(d));
            }
            return None;
        }
        let digit = (c as u32) - ('0' as u32);
        if value > 6553 || (value == 6553 && digit > 5) {
            proof {
                assert(digits_value(next) == value * 10 + digit);
                assert(d.take(i + 1 - start) =~= next);
                if all_digits(d) {
                    lemma_digits_grow(d, (i + 1 - start) as int);
                }
            }
            return None;
        }
        value = value * 10 + digit;
        proof {
            assert(all_digits(next));
        }
        i = i + 1;
    }
    assert(v@.subrange(start as int, v@.len() as int) =~= d);
    Some(value as u16)
}

/// The value of digits is not negative.
proof fn lemma_digits_nonneg(d: Seq<char>)
    requires
        all_digits(d),
    ensures
        digits_value(d) >= 0,
    decreases d.len(),
{
    if d.len() > 0 {
        assert(all_digits(d.drop_last()));
        lemma_digits_nonneg(d.drop_last());
    }
}

/// The value of all the digits is at least that of a prefix of them.
proof fn lemma_digits_grow(d: Seq<char>, k: int)
    requires
        0 <= k <= d.len(),
        all_digits(d),
    ensures
        digits_value(d) >= digits_value(d.take(k)),
    decreases d.len(),
{
    if k == d.len() {
        assert(d.take(k) =~= d);
    } else {
        let e = d.drop_last();
        assert(all_digits(e));
        lemma_digits_nonneg(e);
        lemma_digits_grow(e, k);
        assert(e.take(k) =~= d.take(k));
    }
}

/* ---------------------------------------------------------------------- */
/* The base URL                                                           */
/* ---------------------------------------------------------------------- */

/// The pieces of a `host[:port]` text between colons.
pub open spec fn host_pieces(h: Seq<char>) -> Seq<Seq<char>> {
    split_text(h, ":"@)
}

/// The host of a `host[:port]` text.
pub open spec fn host_part(h: Seq<char>) -> Seq<char> {
    if host_pieces(h).len() > 0 {
        host_pieces(h)[0]
    } else {
        h
    }
}

/// What giving the URL the host (and port) of a `host[:port]` text does:
/// the new text and the error, if any; none where the URL cannot take the
/// host or the port (the generator stops there).
pub open spec fn with_host(text: Seq<char>, h: Seq<char>) -> Option<(Seq<char>, Option<ErrorSpec>)> {
    match host_error(host_part(h)) {
        Some(e) => Some((text, Some(ErrorSpec::InvalidHost(h, e)))),
        None => match url_with_host(text, host_part(h)) {
            None => None,
            Some(t1) => if host_pieces(h).len() > 1 {
                match u16_of(host_pieces(h)[1]) {
                    None => Some((t1, Some(ErrorSpec::InvalidHost(h, "invalid port number"@)))),
                    Some(p) => match url_with_port(t1, p) {
                        None => None,
                        Some(t2) => Some((t2, None)),
                    },
                }
            } else {
                Some((t1, None))
            },
        },
    }
}

/// What giving the URL the host and the base path of a specification does:
/// the new text and the error, if any; none where the URL cannot take them.
pub open spec fn applied(text: Seq<char>, host: Option<Seq<char>>, base_path: Option<Seq<char>>) -> Option<
    (Seq<char>, Option<ErrorSpec>),
> {
    let after_host = match host {
        None => Some((text, None)),
        Some(h) => with_host(text, h),
    };
    match after_host {
        Some((t, None)) => match base_path {
            None => Some((t, None)),
            Some(b) => match url_with_path(t, b) {
                None => None,
                Some(t3) => Some((t3, None)),
            },
        },
        other => other,
    }
}

/// The view of an optional text.
pub open spec fn opt_str(o: Option<&str>) -> Option<Seq<char>> {
    match o {
        Some(s) => Some(s@),
        None => None,
    }
}

/// The view of an optional error.
pub open spec fn opt_error(o: Option<PaperClipError>) -> Option<ErrorSpec> {
    match o {
        Some(e) => Some(error_spec(e)),
        None => None,
    }
}

/// Gives the URL the host and port of a `host[:port]` text.
fn apply_host(text: &str, h: &str) -> (r: Option<(String, Option<PaperClipError>)>)
    ensures
        match r {
            Some((t, e)) => with_host(text@, h@) == Some((t@, opt_error(e))),
            None => with_host(text@, h@) is None,
        },
{
    proof {
        reveal_strlit(":");
    }
    let pieces = split(h, ":");
    let host: &str = if pieces.len() > 0 {
        pieces[0].as_str()
    } else {
        h
    };
    assert(host@ == host_part(h@));
    if let Some(e) = parse_host_error(host) {
        let mut hs = String::new();
        push_str(&mut hs, h);
        let mut t = String::new();
        push_str(&mut t, text);
        return Some((t, Some(PaperClipError::InvalidHost(hs, e))));
    }
    let t1 = match set_url_host(text, host) {
        Some(t) => t,
        None => return None,
    };
    if pieces.len() > 1 {
        assert(pieces@[1]@ == host_pieces(h@)[1]);
        match parse_u16(pieces[1].as_str()) {
            None => {
                let mut hs = String::new();
                push_str(&mut hs, h);
                let e = invalid_port_text();
                Some((t1, Some(PaperClipError::InvalidHost(hs, e))))
            },
            Some(p) => match set_url_port(t1.as_str(), p) {
                None => None,
                Some(t2) => Some((t2, None)),
            },
        }
    } else {
        Some((t1, None))
    }
}

/// Gives the URL the host and the base path of a specification.
fn apply_steps(text: &str, host: Option<&str>, base_path: Option<&str>) -> (r: Option<(String, Option<PaperClipError>)>)
    ensures
        match r {
            Some((t, e)) => applied(text@, opt_str(host), opt_str(base_path)) == Some((t@, opt_error(e))),
            None => applied(text@, opt_str(host), opt_str(base_path)) is None,
        },
{
    let after_host = match host {
        None => {
            let mut t = String::new();
            push_str(&mut t, text);
            Some((t, None))
        },
        Some(h) => apply_host(text, h),
    };
    match after_host {
        Some((t, None)) => match base_path {
            None => Some((t, None)),
            Some(b) => match set_url_path(t.as_str(), b) {
                None => None,
                Some(t3) => Some((t3, None)),
            },
        },
        other => other,
    }
}

/// The base URL of the generated client, by its serialization.
#[derive(Debug, Clone)]
pub struct BaseUrl {
    text: String,
}

impl BaseUrl {
    /// The serialization of the URL.
    pub closed spec fn spec_text(self) -> Seq<char> {
        self.text@
    }

    /// The default base URL, `https://example.com/` (how `url` serializes
    /// `https://example.com`).
    pub fn new() -> (r: BaseUrl)
        ensures
            r.spec_text() == "https://example.com/"@,
    {
        let mut text = String::new();
        push_str(&mut text, "https://example.com/");
        BaseUrl { text }
    }

    /// The URL that `url` parses into.
    pub fn parse(url: &str) -> (r: Result<BaseUrl, PaperClipError>)
        ensures
            match url_parsed(url@) {
                Ok(t) => r matches Ok(b) && b.spec_text() == t,
                Err(e) => r matches Err(x) && error_spec(x) == ErrorSpec::InvalidBasePathURL(url@, e),
            },
    {
        match parse_url(url) {
            Ok(text) => Ok(BaseUrl { text }),
            Err(e) => {
                let mut u = String::new();
                push_str(&mut u, url);
                Err(PaperClipError::InvalidBasePathURL(u, e))
            },
        }
    }

    /// Sets the URL to what `url` parses into; an error leaves it as it was.
    pub fn set_url(&mut self, url: &str) -> (r: Result<(), PaperClipError>)
        ensures
            r is Ok <==> url_parsed(url@) is Ok,
            r is Ok ==> final(self).spec_text() == url_parsed(url@)->Ok_0,
            r matches Err(x) ==> url_parsed(url@) matches Err(e) && error_spec(x) == ErrorSpec::InvalidBasePathURL(url@, e),
            r is Err ==> *final(self) == *old(self),
    {
        match BaseUrl::parse(url) {
            Ok(b) => {
                *self = b;
                Ok(())
            },
            Err(e) => Err(e),
        }
    }

    /// The URL's serialization.
    pub fn base_url(&self) -> (r: String)
        ensures
            r@ == self.spec_text(),
    {
        self.text.clone()
    }

    /// Gives the URL the host (`host[:port]`) and the base path of a
    /// specification, where it can take them: an invalid host or port is an
    /// error, after which the URL keeps what was set before it.
    pub fn apply_host_and_base_path(&mut self, host: Option<&str>, base_path: Option<&str>) -> (r: Result<
        (),
        PaperClipError,
    >)
        requires
            applied(old(self).spec_text(), opt_str(host), opt_str(base_path)) is Some,
        ensures
            ({
                let out = applied(old(self).spec_text(), opt_str(host), opt_str(base_path))->0;
                &&& final(self).spec_text() == out.0
                &&& match r {
                    Ok(()) => out.1 is None,
                    Err(x) => out.1 == Some(error_spec(x)),
                }
            }),
    {
        match apply_steps(self.text.as_str(), host, base_path) {
            Some((t, e)) => {
                self.text = t;
                match e {
                    None => Ok(()),
                    Some(x) => Err(x),
                }
            },
            None => Ok(()),
        }
    }

    /// Gives the URL the host and the base path where the URL can take
    /// them, as `apply_host_and_base_path` does; none, with the URL as it
    /// was, where it cannot.
    pub fn try_apply_host_and_base_path(&mut self, host: Option<&str>, base_path: Option<&str>) -> (r: Option<
        Result<(), PaperClipError>,
    >)
        ensures
            r is None <==> applied(old(self).spec_text(), opt_str(host), opt_str(base_path)) is None,
            r is None ==> *final(self) == *old(self),
            r matches Some(res) ==> ({
                let out = applied(old(self).spec_text(), opt_str(host), opt_str(base_path))->0;
                &&& final(self).spec_text() == out.0
                &&& match res {
                    Ok(()) => out.1 is None,
                    Err(x) => out.1 == Some(error_spec(x)),
                }
            }),
    {
        match apply_steps(self.text.as_str(), host, base_path) {
            Some(_) => Some(self.apply_host_and_base_path(host, base_path)),
            None => None,
        }
    }
}

} // verus!
