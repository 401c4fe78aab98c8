//! The OpenAPI v2 notions that the code generators read: HTTP methods,
//! parameter locations, collection formats, data types and formats.

use vstd::prelude::*;

verus! {

/// HTTP method of an operation, in the order in which operations of a path
/// are visited.
#[derive(Debug, Clone, Copy, PartialEq, Eq, Structural)]
pub enum HttpMethod {
    Get,
    Put,
    Post,
    Delete,
    Options,
    Head,
    Patch,
}

impl HttpMethod {
    /// The method's display name (`Get`, `Put`, ...).
    pub open spec fn spec_name(self) -> Seq<char> {
        match self {
            HttpMethod::Get => "Get"@,
            HttpMethod::Put => "Put"@,
            HttpMethod::Post => "Post"@,
            HttpMethod::Delete => "Delete"@,
            HttpMethod::Options => "Options"@,
            HttpMethod::Head => "Head"@,
            HttpMethod::Patch => "Patch"@,
        }
    }

    /// The method's name in upper case (`GET`, `PUT`, ...).
    pub open spec fn spec_upper_name(self) -> Seq<char> {
        match self {
            HttpMethod::Get => "GET"@,
            HttpMethod::Put => "PUT"@,
            HttpMethod::Post => "POST"@,
            HttpMethod::Delete => "DELETE"@,
            HttpMethod::Options => "OPTIONS"@,
            HttpMethod::Head => "HEAD"@,
            HttpMethod::Patch => "PATCH"@,
        }
    }

    /// Position of the method in the order of declaration.
    pub open spec fn rank(self) -> nat {
        match self {
            HttpMethod::Get => 0,
            HttpMethod::Put => 1,
            HttpMethod::Post => 2,
            HttpMethod::Delete => 3,
            HttpMethod::Options => 4,
            HttpMethod::Head => 5,
            HttpMethod::Patch => 6,
        }
    }

    /// The method's display name (`Get`, `Put`, ...).
    pub fn name(&self) -> (s: &'static str)
        ensures
            s@ == self.spec_name(),
    {
        match self {
            HttpMethod::Get => "Get",
            HttpMethod::Put => "Put",
            HttpMethod::Post => "Post",
            HttpMethod::Delete => "Delete",
            HttpMethod::Options => "Options",
            HttpMethod::Head => "Head",
            HttpMethod::Patch => "Patch",
        }
    }

    /// The method's name in upper case (`GET`, `PUT`, ...).
    pub fn upper_name(&self) -> (s: &'static str)
        ensures
            s@ == self.spec_upper_name(),
    {
        match self {
            HttpMethod::Get => "GET",
            HttpMethod::Put => "PUT",
            HttpMethod::Post => "POST",
            HttpMethod::Delete => "DELETE",
            HttpMethod::Options => "OPTIONS",
            HttpMethod::Head => "HEAD",
            HttpMethod::Patch => "PATCH",
        }
    }
}

/// Where a parameter lives.
#[derive(Debug, Clone, Copy, PartialEq, Eq, Structural)]
pub enum ParameterIn {
    Query,
    Header,
    Path,
    FormData,
    Body,
}

/// How array values are delimited.
#[derive(Debug, Clone, Copy, PartialEq, Eq, Structural)]
pub enum CollectionFormat {
    Csv,
    Ssv,
    Tsv,
    Pipes,
    Multi,
}

impl Default for CollectionFormat {
    /// The default format is `Csv`.
    fn default() -> (r: CollectionFormat)
        ensures
            r == CollectionFormat::Csv,
    {
        CollectionFormat::Csv
    }
}

/// Data type of a schema or parameter.
#[derive(Debug, Clone, Copy, PartialEq, Eq, Structural)]
pub enum DataType {
    Integer,
    Number,
    String,
    Boolean,
    Array,
    Object,
    File,
}

/// Format of a data type.
#[derive(Debug, Clone, Copy, PartialEq, Eq, Structural)]
pub enum DataTypeFormat {
    Int32,
    Int64,
    Float,
    Double,
    Byte,
    Binary,
    Boolean,
    Date,
    DateTime,
    Password,
    Url,
    Uuid,
    Ip,
    IpV4,
    IpV6,
    Other,
}

} // verus!
