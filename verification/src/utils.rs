//! Free-standing leaf constructors: literal text with escaping, character
//! classes, anchors, and the capturing form of alternation.

use vstd::prelude::*;
use vstd::string::StrSliceExecFns;
use vstd::string::StringExecFns;

use crate::fragments::capturing_any_of;
use crate::fragments::digit_class;
use crate::fragments::end_anchor;
use crate::fragments::escaped_char;
use crate::fragments::escaped_text;
use crate::fragments::is_metacharacter;
use crate::fragments::lemma_escaped_text_push;
use crate::fragments::letter_group;
use crate::fragments::start_anchor;
use crate::fragments::word_class;
use crate::part::alternation_text;
use crate::part::Part;

verus! {

/// Whether `c` is a regex metacharacter, exactly as the model predicate
/// `is_metacharacter` says.
fn metacharacter(c: char) -> (result: bool)
    ensures
        result == is_metacharacter(c),
{
    match c {
        '.' | '+' | '*' | '?' | '^' | '$' | '(' | ')' | '[' | ']' | '{' | '}' | '|' | '\\' => true,
        _ => false,
    }
}

/// Escapes every regex metacharacter in `s` with a leading backslash and
/// leaves every other character unchanged. Any text is accepted, the empty
/// text included.
pub fn escape_special_characters(s: &str) -> (result: String)
    ensures
        result@ == escaped_text(s@),
{
    let length = s.unicode_len();
    let mut escaped = String::new();
    let mut i: usize = 0;
    while i < length
        invariant
            length == s@.len(),
            i <= length,
            escaped@ == escaped_text(s@.take(i as int)),
        decreases length - i,
    {
        let c = s.get_char(i);
        if metacharacter(c) {
            crate::part::push_char(&mut escaped, '\\');
        }
        crate::part::push_char(&mut escaped, c);
        proof {
            lemma_escaped_text_push(s@.take(i as int), c);
            assert(s@.take(i + 1) =~= s@.take(i as int).push(s@[i as int]));
            assert(escaped@ =~= escaped_text(s@.take(i as int)) + escaped_char(c));
        }
        i += 1;
    }
    proof {
        assert(s@.take(s@.len() as int) =~= s@);
    }
    escaped
}

/// Matches any single digit.
pub fn digit() -> (result: Part)
    ensures
        result@ == digit_class(),
{
    let part = Part::new("\\d");
    proof {
        reveal_strlit("\\d");
        assert(part@ =~= digit_class());
    }
    part
}

/// Matches the text `s` verbatim: every regex metacharacter in `s` is
/// escaped, every other character is kept as it is.
pub fn exactly(s: &str) -> (result: Part)
    ensures
        result@ == escaped_text(s@),
{
    Part { pattern: escape_special_characters(s) }
}

/// Matches the start of the input.
pub fn starts_with() -> (result: Part)
    ensures
        result@ == start_anchor(),
{
    let part = Part::new("^");
    proof {
        reveal_strlit("^");
        assert(part@ =~= start_anchor());
    }
    part
}

/// Matches the end of the input.
pub fn ends_with() -> (result: Part)
    ensures
        result@ == end_anchor(),
{
    let part = Part::new("$");
    proof {
        reveal_strlit("$");
        assert(part@ =~= end_anchor());
    }
    part
}

/// Matches any one of the given patterns: a capturing group over their
/// alternation. This form captures, unlike the method of the same name on
/// a pattern value, which wraps a non-capturing group.
pub fn any_of(parts: Vec<Part>) -> (result: Part)
    ensures
        result@ == capturing_any_of(parts.deep_view()),
{
    let mut pattern = String::from_str("(");
    let joined = alternation_text(&parts);
    pattern.append(joined.as_str());
    pattern.append(")");
    proof {
        reveal_strlit("(");
        reveal_strlit(")");
        assert(pattern@ =~= capturing_any_of(parts.deep_view()));
    }
    Part { pattern }
}

/// Matches any single word character (letter, digit or underscore).
pub fn alfanumeric() -> (result: Part)
    ensures
        result@ == word_class(),
{
    let part = Part::new("\\w");
    proof {
        reveal_strlit("\\w");
        assert(part@ =~= word_class());
    }
    part
}

/// Matches any single ASCII letter, pre-wrapped in a capturing group.
pub fn alphabetic() -> (result: Part)
    ensures
        result@ == letter_group(),
{
    let part = Part::new("([a-zA-Z])");
    proof {
        reveal_strlit("([a-zA-Z])");
        assert(part@ =~= letter_group());
    }
    part
}

} // verus!
