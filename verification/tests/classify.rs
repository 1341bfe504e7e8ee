use twitch_bindgen::classify::{carries_current_user, classify_body, classify_query};
use twitch_bindgen::kind::ParamKind;

const SHORT: &str = "The ID must match the user ID in the access token.";
const LONG: &str = "This ID must match the user ID in the user access token.";

#[test]
fn current_user_needs_phrase_suffix_and_string() {
    assert!(carries_current_user("moderator_id", Some(SHORT), true));
    assert!(carries_current_user("moderator_id", Some(LONG), true));
    assert!(!carries_current_user("moderator_id", Some(SHORT), false));
    assert!(!carries_current_user("moderator", Some(SHORT), true));
    assert!(!carries_current_user("moderator_id", Some("The ID of the moderator."), true));
    assert!(!carries_current_user("moderator_id", None, true));
    assert!(!carries_current_user("moderator_id", Some("the user id in the access token"), true));
}

#[test]
fn query_roles() {
    assert_eq!(classify_query("user_id", None, true), ParamKind::QueryUserToken);
    assert_eq!(classify_query("broadcaster_id", None, true), ParamKind::QueryUserToken);
    assert_eq!(classify_query("broadcaster_id", None, false), ParamKind::QueryUserToken);
    assert_eq!(classify_query("moderator_id", None, true), ParamKind::Query);
    assert_eq!(classify_query("first", Some("The number of items."), false), ParamKind::Query);
    assert_eq!(classify_query("User_id", None, true), ParamKind::Query);
}

#[test]
fn body_roles() {
    assert_eq!(classify_body("user_id", None, true), ParamKind::BodyUserToken);
    assert_eq!(classify_body("broadcaster_id", None, true), ParamKind::BodyUserToken);
    assert_eq!(classify_body("moderator_id", None, true), ParamKind::BodyUserToken);
    assert_eq!(classify_body("title", Some("The title."), true), ParamKind::Body);
}

#[test]
fn current_user_takes_precedence_over_user_names() {
    assert_eq!(
        classify_query("broadcaster_id", Some(SHORT), true),
        ParamKind::QueryCurrentUserToken
    );
    assert_eq!(classify_query("user_id", Some(LONG), true), ParamKind::QueryCurrentUserToken);
    assert_eq!(classify_body("moderator_id", Some(SHORT), true), ParamKind::BodyCurrentUserToken);
    assert_eq!(classify_body("user_id", Some(LONG), true), ParamKind::BodyCurrentUserToken);
}

#[test]
fn current_user_does_not_depend_on_the_name_set() {
    assert_eq!(classify_query("from_id", Some(SHORT), true), ParamKind::QueryCurrentUserToken);
    assert_eq!(classify_body("from_id", Some(SHORT), true), ParamKind::BodyCurrentUserToken);
    assert!(!classify_query("from_id", Some(SHORT), true).is_active());
    assert!(classify_query("from_id", Some(SHORT), true).is_token_id());
}

#[test]
fn array_typed_user_name_is_explicit_even_with_phrase() {
    assert_eq!(classify_query("user_id", Some(SHORT), false), ParamKind::QueryUserToken);
    assert_eq!(classify_body("moderator_id", Some(SHORT), false), ParamKind::BodyUserToken);
}
