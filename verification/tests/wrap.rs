use twitch_bindgen::wrap::wrap_comment;

#[test]
fn short_line_is_kept() {
    assert_eq!(wrap_comment("hello world", 74), "hello world\n");
}

#[test]
fn empty_text_is_one_empty_line() {
    assert_eq!(wrap_comment("", 10), "\n");
}

#[test]
fn every_input_line_is_wrapped_by_itself() {
    assert_eq!(wrap_comment("a\n\nb", 10), "a\n\nb\n");
}

#[test]
fn long_line_breaks_at_last_space_within_budget() {
    assert_eq!(wrap_comment("aaaa bbbb cccc", 10), "aaaa bbbb\ncccc\n");
}

#[test]
fn break_position_may_equal_budget() {
    assert_eq!(wrap_comment("aaaaaaaaaa bbb", 10), "aaaaaaaaaa\nbbb\n");
}

#[test]
fn line_without_early_space_breaks_behind_first_space() {
    assert_eq!(wrap_comment("aaaaaaaaaaaa bbb", 10), "aaaaaaaaaaaa \nbbb\n");
}

#[test]
fn line_without_space_stays_whole() {
    assert_eq!(wrap_comment("aaaaaaaaaaaaaaaa", 10), "aaaaaaaaaaaaaaaa\n");
}

#[test]
fn line_that_fits_after_trimming_is_followed_by_empty_piece() {
    assert_eq!(wrap_comment("      abcdef", 10), "abcdef\n\n");
}

#[test]
fn width_is_counted_in_bytes() {
    // Each 'é' takes two bytes: the first word alone fills the budget.
    assert_eq!(wrap_comment("ééééé ab", 10), "ééééé\nab\n");
    assert_eq!(wrap_comment("aaaaa ab", 10), "aaaaa ab\n");
}
