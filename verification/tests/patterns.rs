use regex_parts::utils::alfanumeric;
use regex_parts::utils::alphabetic;
use regex_parts::utils::any_of;
use regex_parts::utils::digit;
use regex_parts::utils::ends_with;
use regex_parts::utils::exactly;
use regex_parts::utils::starts_with;
use regex_parts::Part;

#[test]
fn new_wraps_the_text_verbatim() {
    assert_eq!(Part::new("a.b").to_text(), "a.b");
}

#[test]
fn times_repeats_exactly() {
    assert_eq!(Part::new("x").times(3).to_text(), "(x){3}");
}

#[test]
fn times_zero_is_kept() {
    assert_eq!(Part::new("x").times(0).to_text(), "(x){0}");
}

#[test]
fn times_renders_large_counts() {
    assert_eq!(Part::new("x").times(1234567890).to_text(), "(x){1234567890}");
}

#[test]
fn grouped_as_names_the_group() {
    assert_eq!(Part::new("\\d").grouped_as("year").to_text(), "(?P<year>\\d)");
}

#[test]
fn and_concatenates_without_separator() {
    let a = Part::new("ab");
    let b = Part::new("cd");
    assert_eq!(a.and(&b).to_text(), "abcd");
}

#[test]
fn and_is_associative() {
    let a = Part::new("a+");
    let b = Part::new("b?");
    let c = Part::new("c*");
    let left = a.and(&b).and(&c);
    let right = a.and(&b.and(&c));
    assert_eq!(left.to_text(), right.to_text());
    assert_eq!(left.to_text(), "a+b?c*");
}

#[test]
fn digit_method_appends_the_class() {
    assert_eq!(Part::new("a").digit().to_text(), "a\\d");
}

#[test]
fn any_of_method_wraps_a_non_capturing_group() {
    let parts = vec![Part::new("a"), Part::new("b")];
    assert_eq!(Part::new("ignored").any_of(parts).to_text(), "(?:a|b)");
}

#[test]
fn any_of_free_form_wraps_a_capturing_group() {
    let parts = vec![Part::new("a"), Part::new("b")];
    assert_eq!(any_of(parts).to_text(), "(a|b)");
}

#[test]
fn any_of_method_accepts_no_parts() {
    assert_eq!(Part::new("x").any_of(vec![]).to_text(), "(?:)");
}

#[test]
fn any_of_free_form_accepts_no_parts() {
    assert_eq!(any_of(vec![]).to_text(), "()");
}

#[test]
fn any_of_method_with_one_part() {
    assert_eq!(Part::new("x").any_of(vec![Part::new("a")]).to_text(), "(?:a)");
}

#[test]
fn exactly_method_appends_raw_fragments() {
    let parts = vec![Part::new("y"), Part::new("z")];
    assert_eq!(Part::new("x").exactly(parts).to_text(), "xyz");
}

#[test]
fn exactly_method_passes_fragments_unescaped() {
    let parts = vec![Part::new(".+")];
    assert_eq!(Part::new("").exactly(parts).to_text(), ".+");
}

#[test]
fn any_character_discards_the_receiver() {
    assert_eq!(Part::new("xyz").any_character().to_text(), ".");
}

#[test]
fn infinity_wraps_one_or_more() {
    assert_eq!(Part::new("ab").infinity().to_text(), "(?:ab)+");
}

#[test]
fn to_text_twice_returns_the_identical_string() {
    let p = Part::new("a.b").times(2);
    assert_eq!(p.to_text(), p.to_text());
}

#[test]
fn to_debug_text_labels_the_fragment() {
    assert_eq!(Part::new("a|b").to_debug_text(), "Part(a|b)");
}

#[test]
fn clone_keeps_the_text() {
    let p = Part::new("a+b");
    assert_eq!(p.clone().to_text(), p.to_text());
}

#[test]
fn digit_free_form_is_the_class_alone() {
    assert_eq!(digit().to_text(), "\\d");
}

#[test]
fn starts_with_is_the_start_anchor() {
    assert_eq!(starts_with().to_text(), "^");
}

#[test]
fn ends_with_is_the_end_anchor() {
    assert_eq!(ends_with().to_text(), "$");
}

#[test]
fn alfanumeric_is_the_word_class() {
    assert_eq!(alfanumeric().to_text(), "\\w");
}

#[test]
fn alphabetic_is_a_grouped_letter_class() {
    assert_eq!(alphabetic().to_text(), "([a-zA-Z])");
}

#[test]
fn composes_a_dated_pattern() {
    let year = digit().times(4).grouped_as("year");
    let month = digit().times(2).grouped_as("month");
    let pattern = year.and(&exactly("-")).and(&month);
    assert_eq!(pattern.to_text(), "(?P<year>(\\d){4})-(?P<month>(\\d){2})");
}

#[test]
fn anchored_composition() {
    let pattern = starts_with().and(&alfanumeric().infinity()).and(&ends_with());
    assert_eq!(pattern.to_text(), "^(?:\\w)+$");
}
