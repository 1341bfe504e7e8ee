//! The ways in which a document can fall outside the supported dialect.

use vstd::prelude::*;

verus! {

/// Why generation stopped. Every variant is fatal: the generator is meant
/// for one curated document and treats drift from its dialect as a failure.
#[derive(Copy, Clone, Debug, PartialEq, Eq, Structural)]
pub enum Error {
    /// An operation has no tag, so it belongs to no namespace.
    MissingTag,
    /// An operation has no operation id, so its method has no name.
    MissingOperationId,
    /// A parameter travels in a header, a cookie or the path.
    UnsupportedParameterLocation,
    /// A parameter is described by media types instead of a schema.
    UnsupportedParameterContent,
    /// A reference stands where only an inline item is supported.
    UnsupportedReference,
    /// A schema reference leads to no inline schema.
    UnresolvedReference,
    /// A schema is not of one plain type.
    UnsupportedSchema,
    /// A request body offers no JSON content.
    NonJsonRequestBody,
    /// A JSON content declares no schema.
    MissingSchema,
    /// The schema of a request body is not an object.
    NonObjectRequestBody,
    /// The schema of a success response is not an object.
    NonObjectResponseSchema,
    /// Two parameters of one method share a normalized identifier.
    DuplicateParameterId,
    /// A user identifier is declared as something else than a string or
    /// an array.
    UnexpectedTokenType,
    /// Schemas nest deeper than the generator follows them.
    NestingTooDeep,
}

/// The result of a step that yields a value with a view, seen through
/// that view.
pub open spec fn result_view<T: View>(r: Result<T, Error>) -> Result<T::V, Error> {
    match r {
        Ok(v) => Ok(v@),
        Err(e) => Err(e),
    }
}

/// The result of a step that changes a value in place: the new value
/// where the step succeeded.
pub open spec fn outcome<V>(r: Result<(), Error>, value: V) -> Result<V, Error> {
    match r {
        Ok(_) => Ok(value),
        Err(e) => Err(e),
    }
}

impl Error {
    /// The description of the failure.
    pub open spec fn message_text(self) -> Seq<char> {
        match self {
            Error::MissingTag => "operation has no tags, so its namespace is unknown"@,
            Error::MissingOperationId => "operation has no operationId, so its method name is unknown"@,
            Error::UnsupportedParameterLocation => "header, cookie and path parameters are not supported"@,
            Error::UnsupportedParameterContent => "content parameters are not supported"@,
            Error::UnsupportedReference => "a $ref stands where it is not supported"@,
            Error::UnresolvedReference => "a schema $ref could not be resolved"@,
            Error::UnsupportedSchema => "a schema is not a single type"@,
            Error::NonJsonRequestBody => "request body does not have a json content type"@,
            Error::MissingSchema => "json content does not have a schema"@,
            Error::NonObjectRequestBody => "request body schema is not an object"@,
            Error::NonObjectResponseSchema => "200 response schema is not an object"@,
            Error::DuplicateParameterId => "duplicate parameter id"@,
            Error::UnexpectedTokenType => "unexpected base type for user token"@,
            Error::NestingTooDeep => "schemas nest too deep"@,
        }
    }

    /// The description of the failure.
    pub fn message(&self) -> (r: &'static str)
        ensures
            r@ == self.message_text(),
    {
        match self {
            Error::MissingTag => "operation has no tags, so its namespace is unknown",
            Error::MissingOperationId => "operation has no operationId, so its method name is unknown",
            Error::UnsupportedParameterLocation => "header, cookie and path parameters are not supported",
            Error::UnsupportedParameterContent => "content parameters are not supported",
            Error::UnsupportedReference => "a $ref stands where it is not supported",
            Error::UnresolvedReference => "a schema $ref could not be resolved",
            Error::UnsupportedSchema => "a schema is not a single type",
            Error::NonJsonRequestBody => "request body does not have a json content type",
            Error::MissingSchema => "json content does not have a schema",
            Error::NonObjectRequestBody => "request body schema is not an object",
            Error::NonObjectResponseSchema => "200 response schema is not an object",
            Error::DuplicateParameterId => "duplicate parameter id",
            Error::UnexpectedTokenType => "unexpected base type for user token",
            Error::NestingTooDeep => "schemas nest too deep",
        }
    }
}

} // verus!
