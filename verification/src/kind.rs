//! The semantic role that a request parameter plays.

use vstd::prelude::*;

verus! {

/// The role of one parameter of a method.
#[derive(Copy, Clone, Debug, PartialEq, Eq, Structural)]
pub enum ParamKind {
    /// An ordinary query parameter.
    Query,
    /// A query parameter whose value is always the caller's own identity.
    QueryCurrentUserToken,
    /// A query parameter that names a user chosen by the caller.
    QueryUserToken,
    /// An ordinary property of the request body.
    Body,
    /// A body property whose value is always the caller's own identity.
    BodyCurrentUserToken,
    /// A body property that names a user chosen by the caller.
    BodyUserToken,
}

impl ParamKind {
    /// Whether the parameter represents a user identifier, current or explicit.
    pub open spec fn spec_is_token_id(&self) -> bool {
        *self is QueryCurrentUserToken || *self is BodyCurrentUserToken
            || *self is QueryUserToken || *self is BodyUserToken
    }

    /// Whether the parameter appears in the public request shape.
    pub open spec fn spec_is_active(&self) -> bool {
        !(*self is QueryCurrentUserToken || *self is BodyCurrentUserToken)
    }

    /// Whether the parameter travels in the request body.
    pub open spec fn spec_is_body(&self) -> bool {
        *self is Body || *self is BodyCurrentUserToken || *self is BodyUserToken
    }

    #[verifier::when_used_as_spec(spec_is_token_id)]
    pub fn is_token_id(&self) -> (r: bool)
        ensures
            r == self.spec_is_token_id(),
    {
        match self {
            ParamKind::QueryCurrentUserToken
            | ParamKind::BodyCurrentUserToken
            | ParamKind::QueryUserToken
            | ParamKind::BodyUserToken => true,
            _ => false,
        }
    }

    #[verifier::when_used_as_spec(spec_is_active)]
    pub fn is_active(&self) -> (r: bool)
        ensures
            r == self.spec_is_active(),
    {
        match self {
            ParamKind::QueryCurrentUserToken | ParamKind::BodyCurrentUserToken => false,
            _ => true,
        }
    }

    #[verifier::when_used_as_spec(spec_is_body)]
    pub fn is_body(&self) -> (r: bool)
        ensures
            r == self.spec_is_body(),
    {
        match self {
            ParamKind::Body | ParamKind::BodyCurrentUserToken | ParamKind::BodyUserToken => true,
            _ => false,
        }
    }
}

} // verus!
