//! The metadata of the crate being generated: its name, version and
//! authors, taken from the specification's `info` and the environment.

use vstd::prelude::*;
use crate::author::author_line;
use crate::definitions::opt_view;
use crate::text::{push_str, snake_case_of, to_snake_case};

verus! {

/// Whether `semver::Version::parse` accepts the text (three numeric
/// components, with optional pre-release and build metadata).
pub uninterp spec fn is_semver(s: Seq<char>) -> bool;

/// Calls `semver::Version::parse` and tells whether it succeeds.
#[verifier::external_body]
fn version_parses(s: &str) -> (r: bool)
    ensures
        r == is_semver(s@),
{
    ::semver::Version::parse(s).is_ok()
}

/// The metadata of the crate being generated.
#[derive(Debug, Clone)]
pub struct CrateMeta {
    /// Name of the crate.
    pub name: Option<String>,
    /// Version of the crate.
    pub version: Option<String>,
    /// Authors of the crate.
    pub authors: Option<Vec<String>>,
    /// Whether the crate is a command line application.
    pub is_cli: bool,
}

/// The text of an author: the name, then the e-mail address in angle
/// brackets when there is one.
pub open spec fn author_text(name: Seq<char>, email: Option<Seq<char>>) -> Seq<char> {
    match email {
        Some(e) => name + " <"@ + e + ">"@,
        None => name,
    }
}

/// The metadata taken from a specification's `info`: the title names the
/// crate, and the version is kept only when it is a semantic version.
pub fn meta_from_info(title: &str, version: &str) -> (r: CrateMeta)
    ensures
        opt_view(r.name) == Some(title@),
        r.version is Some <==> is_semver(version@),
        r.version matches Some(v) ==> v@ == version@,
        r.authors is None,
        !r.is_cli,
{
    let mut name = String::new();
    push_str(&mut name, title);
    let v = if version_parses(version) {
        let mut t = String::new();
        push_str(&mut t, version);
        Some(t)
    } else {
        None
    };
    CrateMeta { name: Some(name), version: v, authors: None, is_cli: false }
}

/// Sets the metadata from the specification's `info` when the session has
/// none yet.
pub fn set_meta_if_missing(meta: &mut Option<CrateMeta>, title: &str, version: &str)
    ensures
        (*old(meta)) is Some ==> *final(meta) == *old(meta),
        (*old(meta)) is None ==> ((*final(meta)) matches Some(m) && opt_view(m.name) == Some(title@) && (m.version
            is Some <==> is_semver(version@)) && (m.version matches Some(v) ==> v@ == version@) && m.authors is None
            && !m.is_cli),
{
    if meta.is_none() {
        *meta = Some(meta_from_info(title, version));
    }
}

/// Fills what the metadata lacks: the name from the name of the working
/// directory (snake-cased), the version `0.1.0`, and the author found in
/// the environment (whose error is given back, after the name and the
/// version are filled).
pub fn infer_meta(meta: &mut CrateMeta, dir_name: &str, author: Result<(String, Option<String>), String>) -> (r: Result<
    (),
    String,
>)
    ensures
        final(meta).is_cli == old(meta).is_cli,
        old(meta).name is Some ==> final(meta).name == old(meta).name,
        old(meta).name is None ==> opt_view(final(meta).name) == Some(snake_case_of(dir_name@)),
        old(meta).version is Some ==> final(meta).version == old(meta).version,
        old(meta).version is None ==> opt_view(final(meta).version) == Some("0.1.0"@),
        old(meta).authors is Some ==> r is Ok && final(meta).authors == old(meta).authors,
        old(meta).authors is None ==> match author {
            Err(e) => r == Err::<(), String>(e) && final(meta).authors is None,
            Ok((n, e)) => r is Ok && (final(meta).authors matches Some(v) && v@.len() == 1 && v@[0]@
                == author_text(n@, opt_view(e))),
        },
{
    if meta.name.is_none() {
        meta.name = Some(to_snake_case(dir_name));
    }
    if meta.version.is_none() {
        let mut v = String::new();
        push_str(&mut v, "0.1.0");
        meta.version = Some(v);
    }
    if meta.authors.is_none() {
        match author {
            Err(e) => {
                return Err(e);
            },
            Ok((n, e)) => {
                let line = match &e {
                    Some(x) => author_line(n.as_str(), Some(x.as_str())),
                    None => author_line(n.as_str(), None),
                };
                let mut v: Vec<String> = Vec::new();
                v.push(line);
                meta.authors = Some(v);
            },
        }
    }
    Ok(())
}

} // verus!
