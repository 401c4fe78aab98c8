//! The command line of the code generator: which OpenAPI version it is asked for.

use vstd::prelude::*;
use crate::definitions::PaperClipError;

verus! {

/// The OpenAPI versions the command line names.
#[derive(Debug, Clone, Copy, PartialEq, Eq, Structural)]
pub enum OApiVersion {
    V2,
    V3,
}

/// The version named by the text, if any.
pub open spec fn version_named(s: Seq<char>) -> Option<OApiVersion> {
    if s == "v2"@ {
        Some(OApiVersion::V2)
    } else if s == "v3"@ {
        Some(OApiVersion::V3)
    } else {
        None
    }
}

/// Parses the OpenAPI version given on the command line (`v2` or `v3`).
pub fn parse_version(s: &str) -> (r: Result<OApiVersion, PaperClipError>)
    ensures
        match version_named(s@) {
            Some(v) => r == Ok::<OApiVersion, PaperClipError>(v),
            None => r == Err::<OApiVersion, PaperClipError>(PaperClipError::UnsupportedOpenAPIVersion),
        },
{
    if crate::object::str_eq(s, "v2") {
        Ok(OApiVersion::V2)
    } else if crate::object::str_eq(s, "v3") {
        Ok(OApiVersion::V3)
    } else {
        Err(PaperClipError::UnsupportedOpenAPIVersion)
    }
}

/// Checks that code can be generated for the version: only OpenAPI v2 is
/// supported.
pub fn check_version(v: OApiVersion) -> (r: Result<(), PaperClipError>)
    ensures
        r is Ok <==> v == OApiVersion::V2,
        r is Err ==> r == Err::<(), PaperClipError>(PaperClipError::UnsupportedOpenAPIVersion),
{
    match v {
        OApiVersion::V2 => Ok(()),
        OApiVersion::V3 => Err(PaperClipError::UnsupportedOpenAPIVersion),
    }
}

} // verus!
