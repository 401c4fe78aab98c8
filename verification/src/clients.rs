//! HTTP clients of the generated APIs: their configuration, the requests that
//! their operations send, and what a response is turned into.

pub mod actix;
pub mod tower;

use vstd::prelude::*;
use crate::apis::{
    bool_string, bool_text, build_uri, join, joined, param_views, signed_decimal, signed_text,
    string_views, uri_of, Uuid,
};
use crate::models::HttpMethod;
use crate::object::{opt_str_view, opt_string_view};
use crate::text::push_str;

verus! {

/// Configuration shared by the clients of an API.
#[derive(Debug, Clone)]
pub struct Configuration {
    /// Base path of the API: scheme, host and path prefix.
    pub base_path: String,
    /// User agent sent with each request, if any.
    pub user_agent: Option<String>,
}

/// A request of a client operation, before it is sent.
#[derive(Debug, Clone)]
pub struct Request {
    /// The HTTP method.
    pub method: HttpMethod,
    /// The URI: base path, operation path and query.
    pub uri: String,
    /// The user agent header, if any.
    pub user_agent: Option<String>,
    /// The content type header.
    pub content_type: String,
    /// The body.
    pub body: Vec<u8>,
}

/// Whether `r` is the request with the given method, path and query
/// parameters under configuration `c`.
pub open spec fn is_request(
    r: Request,
    c: Configuration,
    method: HttpMethod,
    path: Seq<char>,
    params: Seq<(Seq<char>, Option<Seq<char>>)>,
) -> bool {
    &&& r.method == method
    &&& r.uri@ == uri_of(c.base_path@, path, params)
    &&& opt_string_view(r.user_agent) == opt_string_view(c.user_agent)
    &&& r.content_type@ == "application/json"@
    &&& r.body@.len() == 0
}

/// Clones an optional string.
fn clone_opt_string(o: &Option<String>) -> (r: Option<String>)
    ensures
        opt_string_view(r) == opt_string_view(*o),
{
    match o {
        Some(s) => Some(s.clone()),
        None => None,
    }
}

/// Builds the request of an operation from its method, path and query
/// parameters.
pub fn make_request(
    configuration: &Configuration,
    method: HttpMethod,
    path: &str,
    params: &Vec<(&str, Option<String>)>,
) -> (r: Request)
    ensures
        is_request(r, *configuration, method, path@, param_views(params@)),
{
    let uri = build_uri(configuration.base_path.as_str(), path, params);
    let mut content_type = String::new();
    push_str(&mut content_type, "application/json");
    Request {
        method,
        uri,
        user_agent: clone_opt_string(&configuration.user_agent),
        content_type,
        body: Vec::new(),
    }
}

/* ---------------------------------------------------------------------- */
/* Optional query values                                                  */
/* ---------------------------------------------------------------------- */

/// The text of an optional integer.
pub open spec fn opt_signed_text(o: Option<isize>) -> Option<Seq<char>> {
    match o {
        Some(n) => Some(signed_decimal(n as int)),
        None => None,
    }
}

/// The text of an optional boolean.
pub open spec fn opt_bool_text(o: Option<bool>) -> Option<Seq<char>> {
    match o {
        Some(b) => Some(bool_text(b)),
        None => None,
    }
}

/// The text of an optional identifier.
pub open spec fn opt_uuid_text(o: Option<&Uuid>) -> Option<Seq<char>> {
    match o {
        Some(u) => Some(u.spec_text()),
        None => None,
    }
}

/// The items of an optional list, joined by commas.
pub open spec fn opt_joined_text(o: Option<Vec<String>>) -> Option<Seq<char>> {
    match o {
        Some(v) => Some(joined(string_views(v@), ","@)),
        None => None,
    }
}

/// Formats an optional integer.
pub fn opt_signed_string(o: Option<isize>) -> (r: Option<String>)
    ensures
        opt_string_view(r) == opt_signed_text(o),
{
    match o {
        Some(n) => Some(signed_text(n)),
        None => None,
    }
}

/// Formats an optional boolean.
pub fn opt_bool_string(o: Option<bool>) -> (r: Option<String>)
    ensures
        opt_string_view(r) == opt_bool_text(o),
{
    match o {
        Some(b) => Some(bool_string(b)),
        None => None,
    }
}

/// Copies an optional string slice.
pub fn opt_str_string(o: Option<&str>) -> (r: Option<String>)
    ensures
        opt_string_view(r) == opt_str_view(o),
{
    match o {
        Some(s) => Some(s.to_owned()),
        None => None,
    }
}

/// Formats an optional identifier.
pub fn opt_uuid_string(o: Option<&Uuid>) -> (r: Option<String>)
    ensures
        opt_string_view(r) == opt_uuid_text(o),
{
    match o {
        Some(u) => Some(u.to_string()),
        None => None,
    }
}

/// Joins the items of an optional list with commas.
pub fn opt_joined_string(o: &Option<Vec<String>>) -> (r: Option<String>)
    ensures
        opt_string_view(r) == opt_joined_text(*o),
{
    match o {
        Some(v) => Some(join(v, ",")),
        None => None,
    }
}

/* ---------------------------------------------------------------------- */
/* Responses                                                              */
/* ---------------------------------------------------------------------- */

/// Whether an HTTP status code is a success (`200` to `299`).
pub open spec fn spec_is_success(status: u16) -> bool {
    200 <= status && status <= 299
}

/// Checks whether an HTTP status code is a success (`200` to `299`).
pub fn is_success(status: u16) -> (r: bool)
    ensures
        r == spec_is_success(status),
{
    200 <= status && status <= 299
}

} // verus!
