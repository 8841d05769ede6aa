use regex_parts::utils::escape_special_characters;
use regex_parts::utils::exactly;

#[test]
fn escapes_each_metacharacter() {
    let metacharacters = ['.', '+', '*', '?', '^', '$', '(', ')', '[', ']', '{', '}', '|', '\\'];
    for c in metacharacters {
        let escaped = escape_special_characters(&format!("{}", c));
        assert_eq!(escaped, format!("\\{}", c));
    }
}

#[test]
fn leaves_plain_text_unchanged() {
    assert_eq!(escape_special_characters("abc_123 xyz"), "abc_123 xyz");
}

#[test]
fn leaves_unicode_text_unchanged() {
    assert_eq!(escape_special_characters("héllo wörld"), "héllo wörld");
}

#[test]
fn escapes_mixed_text() {
    assert_eq!(escape_special_characters("a.b"), "a\\.b");
}

#[test]
fn escapes_every_occurrence() {
    assert_eq!(escape_special_characters("(a|b)*"), "\\(a\\|b\\)\\*");
}

#[test]
fn accepts_the_empty_text() {
    assert_eq!(escape_special_characters(""), "");
}

#[test]
fn exactly_escapes_its_text() {
    assert_eq!(exactly("1+1=2").to_text(), "1\\+1=2");
}

#[test]
fn exactly_accepts_the_empty_text() {
    assert_eq!(exactly("").to_text(), "");
}
