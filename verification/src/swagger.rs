//! Errors of the actix plugin while serving the specification and its UI.

use vstd::prelude::*;
use crate::text::push_str;

verus! {

/// What can go wrong while serving the specification or its UI.
#[derive(Debug, Clone, Copy, PartialEq, Eq, Structural)]
pub enum SwaggerError {
    /// The JSON specification was not set up before the UI.
    JSONSpecificationNotFound,
    /// The UI could not be rendered.
    SwaggerUIRenderingError,
}

impl SwaggerError {
    /// The text of the error.
    pub open spec fn spec_message(self) -> Seq<char> {
        match self {
            SwaggerError::JSONSpecificationNotFound => "JSON specification not found.\nYou have to run with_json_spec_at(path) first."@,
            SwaggerError::SwaggerUIRenderingError => "An error occurred while rendering Swagger-UI"@,
        }
    }

    /// Describes the error as its `Display` form does.
    pub fn message(&self) -> (r: String)
        ensures
            r@ == self.spec_message(),
    {
        let mut s = String::new();
        match self {
            SwaggerError::JSONSpecificationNotFound => push_str(
                &mut s,
                "JSON specification not found.\nYou have to run with_json_spec_at(path) first.",
            ),
            SwaggerError::SwaggerUIRenderingError => push_str(
                &mut s,
                "An error occurred while rendering Swagger-UI",
            ),
        }
        s
    }
}

} // verus!
