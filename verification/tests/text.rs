use twitch_bindgen::kind::ParamKind;
use twitch_bindgen::render::push_escaped;
use twitch_bindgen::text::{
    chars_of, contains, ends_with, has_char, is_listed, str_eq, strip_prefix, to_ascii_upper,
};

fn escape(s: &str) -> String {
    let mut out = String::new();
    push_escaped(&mut out, s);
    out
}

#[test]
fn token_ids_are_the_four_user_roles() {
    assert!(!ParamKind::Query.is_token_id());
    assert!(ParamKind::QueryCurrentUserToken.is_token_id());
    assert!(ParamKind::QueryUserToken.is_token_id());
    assert!(!ParamKind::Body.is_token_id());
    assert!(ParamKind::BodyCurrentUserToken.is_token_id());
    assert!(ParamKind::BodyUserToken.is_token_id());
}

#[test]
fn only_current_user_roles_are_inactive() {
    assert!(ParamKind::Query.is_active());
    assert!(!ParamKind::QueryCurrentUserToken.is_active());
    assert!(ParamKind::QueryUserToken.is_active());
    assert!(ParamKind::Body.is_active());
    assert!(!ParamKind::BodyCurrentUserToken.is_active());
    assert!(ParamKind::BodyUserToken.is_active());
}

#[test]
fn body_roles_are_the_three_body_kinds() {
    assert!(!ParamKind::Query.is_body());
    assert!(!ParamKind::QueryCurrentUserToken.is_body());
    assert!(!ParamKind::QueryUserToken.is_body());
    assert!(ParamKind::Body.is_body());
    assert!(ParamKind::BodyCurrentUserToken.is_body());
    assert!(ParamKind::BodyUserToken.is_body());
}

#[test]
fn chars_of_keeps_every_character() {
    assert_eq!(chars_of("aé\n"), vec!['a', 'é', '\n']);
    assert_eq!(chars_of(""), Vec::<char>::new());
}

#[test]
fn string_comparison_is_by_content() {
    assert!(str_eq("user_id", "user_id"));
    assert!(!str_eq("user_id", "user_ids"));
    assert!(str_eq("", ""));
}

#[test]
fn substring_search() {
    assert!(contains("abcabd", "abd"));
    assert!(contains("abc", ""));
    assert!(contains("", ""));
    assert!(!contains("abc", "abcd"));
    assert!(!contains("abcabc", "acb"));
    assert!(contains("xthe user ID in the access tokenx", "the user ID in the access token"));
}

#[test]
fn suffix_and_prefix() {
    assert!(ends_with("user_id", "_id"));
    assert!(!ends_with("user_ids", "_id"));
    assert!(!ends_with("id", "_id"));
    assert!(ends_with("_id", "_id"));
    assert_eq!(strip_prefix("#/components/schemas/User", "#/components/schemas/"), Some("User".to_string()));
    assert_eq!(strip_prefix("#/components/schemas/", "#/components/schemas/"), Some(String::new()));
    assert_eq!(strip_prefix("#/components/responses/User", "#/components/schemas/"), None);
    assert_eq!(strip_prefix("#", "#/components/schemas/"), None);
}

#[test]
fn character_search() {
    assert!(has_char("user_id", '_'));
    assert!(!has_char("userId", '_'));
    assert!(!has_char("", '_'));
}

#[test]
fn list_membership() {
    let list = vec!["a".to_string(), "bc".to_string()];
    assert!(is_listed(&list, "bc"));
    assert!(!is_listed(&list, "b"));
    assert!(!is_listed(&Vec::new(), "a"));
}

#[test]
fn ascii_upper_matches_the_standard_library() {
    for s in ["get", "Post", "délete", "a-z_09", "", "ſ"] {
        assert_eq!(to_ascii_upper(s), s.to_ascii_uppercase());
    }
    assert_eq!(to_ascii_upper("patch"), "PATCH");
}

#[test]
fn escaping_matches_the_standard_library() {
    for s in [
        "",
        "plain text",
        "tab\there",
        "line\nfeed\rreturn",
        "quote\"single'back\\slash",
        "del\u{7f}nul\0bell\u{7}",
        "é ❤ \u{1f600} \u{10ffff}",
        "~ {}",
        "\u{10}\u{1f}\u{20}\u{7e}\u{80}\u{ff}\u{100}",
    ] {
        assert_eq!(escape(s), s.escape_default().to_string());
    }
}

#[test]
fn escaping_exact_values() {
    assert_eq!(escape("a\"b"), "a\\\"b");
    assert_eq!(escape("\t"), "\\t");
    assert_eq!(escape("é"), "\\u{e9}");
    assert_eq!(escape("\0"), "\\u{0}");
    assert_eq!(escape("\u{1f600}"), "\\u{1f600}");
}
