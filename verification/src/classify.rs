//! The rules that tell which role a parameter plays.
//!
//! The description of a field gives away whether it carries the caller's
//! own identity; a handful of names mark the identity of a user that the
//! caller chooses. Every classification ends in a definite role.

use crate::kind::ParamKind;
use crate::text::{contains, ends_with, has_substring, has_suffix, str_eq};
use vstd::prelude::*;

verus! {

/// Whether a description says that the field holds the identity of the
/// caller.
pub open spec fn mentions_current_user(description: Option<Seq<char>>) -> bool {
    match description {
        Some(d) => has_substring(d, "the user ID in the access token"@) || has_substring(
            d,
            "the user ID in the user access token"@,
        ),
        None => false,
    }
}

/// Whether a field carries the identity of the caller: its description
/// says so, its wire name ends in `_id`, and it is a plain string.
pub open spec fn is_current_user(
    name: Seq<char>,
    description: Option<Seq<char>>,
    plain_string: bool,
) -> bool {
    mentions_current_user(description) && has_suffix(name, "_id"@) && plain_string
}

/// Whether a query parameter of this name identifies a user.
pub open spec fn names_user_in_query(name: Seq<char>) -> bool {
    name == "user_id"@ || name == "broadcaster_id"@
}

/// Whether a body property of this name identifies a user.
pub open spec fn names_user_in_body(name: Seq<char>) -> bool {
    name == "user_id"@ || name == "broadcaster_id"@ || name == "moderator_id"@
}

/// The role of a query parameter.
pub open spec fn query_kind(
    name: Seq<char>,
    description: Option<Seq<char>>,
    plain_string: bool,
) -> ParamKind {
    if is_current_user(name, description, plain_string) {
        ParamKind::QueryCurrentUserToken
    } else if names_user_in_query(name) {
        ParamKind::QueryUserToken
    } else {
        ParamKind::Query
    }
}

/// The role of a property of the request body.
pub open spec fn body_kind(
    name: Seq<char>,
    description: Option<Seq<char>>,
    plain_string: bool,
) -> ParamKind {
    if is_current_user(name, description, plain_string) {
        ParamKind::BodyCurrentUserToken
    } else if names_user_in_body(name) {
        ParamKind::BodyUserToken
    } else {
        ParamKind::Body
    }
}

/// The text of an optional string slice.
pub open spec fn option_str_text(o: Option<&str>) -> Option<Seq<char>> {
    match o {
        Some(s) => Some(s@),
        None => None,
    }
}

/// Decides whether a field carries the identity of the caller.
pub fn carries_current_user(name: &str, description: Option<&str>, plain_string: bool) -> (r: bool)
    ensures
        r == is_current_user(name@, option_str_text(description), plain_string),
{
    let mentioned = match description {
        Some(d) => contains(d, "the user ID in the access token") || contains(
            d,
            "the user ID in the user access token",
        ),
        None => false,
    };
    mentioned && ends_with(name, "_id") && plain_string
}

/// Classifies a query parameter.
pub fn classify_query(name: &str, description: Option<&str>, plain_string: bool) -> (r: ParamKind)
    ensures
        r == query_kind(name@, option_str_text(description), plain_string),
{
    if carries_current_user(name, description, plain_string) {
        ParamKind::QueryCurrentUserToken
    } else if str_eq(name, "user_id") || str_eq(name, "broadcaster_id") {
        ParamKind::QueryUserToken
    } else {
        ParamKind::Query
    }
}

/// Classifies a property of the request body.
pub fn classify_body(name: &str, description: Option<&str>, plain_string: bool) -> (r: ParamKind)
    ensures
        r == body_kind(name@, option_str_text(description), plain_string),
{
    if carries_current_user(name, description, plain_string) {
        ParamKind::BodyCurrentUserToken
    } else if str_eq(name, "user_id") || str_eq(name, "broadcaster_id") || str_eq(
        name,
        "moderator_id",
    ) {
        ParamKind::BodyUserToken
    } else {
        ParamKind::Body
    }
}

/// A field with one of the names that identify a user is classified as a
/// user identifier: as the caller's own where the rule for the current
/// user matches as well, as an explicit one otherwise.
pub proof fn lemma_user_names_are_token_ids(
    name: Seq<char>,
    description: Option<Seq<char>>,
    plain_string: bool,
)
    ensures
        names_user_in_query(name) ==> query_kind(name, description, plain_string) == (if is_current_user(
            name,
            description,
            plain_string,
        ) {
            ParamKind::QueryCurrentUserToken
        } else {
            ParamKind::QueryUserToken
        }),
        names_user_in_body(name) ==> body_kind(name, description, plain_string) == (if is_current_user(
            name,
            description,
            plain_string,
        ) {
            ParamKind::BodyCurrentUserToken
        } else {
            ParamKind::BodyUserToken
        }),
        names_user_in_query(name) ==> query_kind(name, description, plain_string).spec_is_token_id(),
        names_user_in_body(name) ==> body_kind(name, description, plain_string).spec_is_token_id(),
{
}

/// A field that matches the rule for the current user is classified as
/// the caller's own identity, whatever its name, and is not active: it
/// stays out of the public request shape.
pub proof fn lemma_current_user_is_inactive(
    name: Seq<char>,
    description: Option<Seq<char>>,
    plain_string: bool,
)
    requires
        is_current_user(name, description, plain_string),
    ensures
        query_kind(name, description, plain_string) == ParamKind::QueryCurrentUserToken,
        body_kind(name, description, plain_string) == ParamKind::BodyCurrentUserToken,
        !query_kind(name, description, plain_string).spec_is_active(),
        !body_kind(name, description, plain_string).spec_is_active(),
        query_kind(name, description, plain_string).spec_is_token_id(),
        body_kind(name, description, plain_string).spec_is_token_id(),
{
}

/// Classification never fails to decide, and it keeps query and body
/// roles apart.
pub proof fn lemma_kinds_keep_their_side(
    name: Seq<char>,
    description: Option<Seq<char>>,
    plain_string: bool,
)
    ensures
        !query_kind(name, description, plain_string).spec_is_body(),
        body_kind(name, description, plain_string).spec_is_body(),
{
}

} // verus!
