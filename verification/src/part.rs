//! The pattern value: an immutable wrapper around a partial regex-pattern
//! text, with the chainable operations that combine wrapped values into new
//! wrapped values. No operation ever mutates an existing value.

use vstd::prelude::*;
use vstd::string::StrSliceExecFns;
use vstd::string::StringExecFns;

use crate::fragments::alternation;
use crate::fragments::any_character_class;
use crate::fragments::concatenation;
use crate::fragments::decimal;
use crate::fragments::decimal_digit;
use crate::fragments::digit_class;
use crate::fragments::labeled_text;
use crate::fragments::lemma_alternation_push;
use crate::fragments::lemma_concatenation_push;
use crate::fragments::named_group;
use crate::fragments::non_capturing_any_of;
use crate::fragments::one_or_more;
use crate::fragments::repetition;

verus! {

/// A partial regex-pattern fragment. The wrapped text is never validated:
/// a syntactically wrong fragment is passed along unchanged and surfaces
/// only when an external regex engine compiles the final text.
pub struct Part {
    /// The accumulated pattern fragment.
    pub pattern: String,
}

impl View for Part {
    type V = Seq<char>;

    open spec fn view(&self) -> Seq<char> {
        self.pattern@
    }
}

impl DeepView for Part {
    type V = Seq<char>;

    open spec fn deep_view(&self) -> Seq<char> {
        self@
    }
}

impl Clone for Part {
    fn clone(&self) -> (result: Self)
        ensures
            result@ == self@,
    {
        Part { pattern: self.pattern.clone() }
    }
}

/// Relies on `String::push` from std: it appends exactly the one given
/// character at the end of the string.
#[verifier::external_body]
pub(crate) fn push_char(s: &mut String, c: char)
    ensures
        final(s)@ == old(s)@.push(c),
{
    s.push(c);
}

/// The decimal rendering of `n`, exactly as the model function `decimal`
/// describes it.
fn decimal_text(n: usize) -> (result: String)
    ensures
        result@ == decimal(n as nat),
    decreases n,
{
    if n < 10 {
        let mut s = String::new();
        push_char(&mut s, (48u8 + (n as u8)) as char);
        proof {
            assert(s@ =~= seq![decimal_digit(n as int)]);
        }
        s
    } else {
        let mut s = decimal_text(n / 10);
        push_char(&mut s, (48u8 + ((n % 10) as u8)) as char);
        proof {
            assert(s@ =~= decimal((n / 10) as nat) + seq![decimal_digit((n % 10) as int)]);
        }
        s
    }
}

/// The texts of `parts` joined into one alternation, a `|` between
/// neighbours.
pub(crate) fn alternation_text(parts: &Vec<Part>) -> (result: String)
    ensures
        result@ == alternation(parts.deep_view()),
{
    let mut out = String::new();
    let mut i: usize = 0;
    while i < parts.len()
        invariant
            i <= parts@.len(),
            out@ == alternation(parts.deep_view().take(i as int)),
        decreases parts@.len() - i,
    {
        if i > 0 {
            push_char(&mut out, '|');
        }
        out.append(parts[i].pattern.as_str());
        proof {
            let fragments = parts.deep_view();
            assert(fragments.take(i + 1) =~= fragments.take(i as int).push(fragments[i as int]));
            if i > 0 {
                lemma_alternation_push(fragments.take(i as int), fragments[i as int]);
            } else {
                assert(fragments.take(1) =~= seq![fragments[0]]);
                assert(alternation(seq![fragments[0]]) == fragments[0]);
                assert(Seq::<char>::empty() + fragments[0] =~= fragments[0]);
            }
        }
        i += 1;
    }
    proof {
        assert(parts.deep_view().take(parts@.len() as int) =~= parts.deep_view());
    }
    out
}

/// The texts of `parts` laid end to end, with no separator.
pub(crate) fn concatenation_text(parts: &Vec<Part>) -> (result: String)
    ensures
        result@ == concatenation(parts.deep_view()),
{
    let mut out = String::new();
    let mut i: usize = 0;
    while i < parts.len()
        invariant
            i <= parts@.len(),
            out@ == concatenation(parts.deep_view().take(i as int)),
        decreases parts@.len() - i,
    {
        out.append(parts[i].pattern.as_str());
        proof {
            let fragments = parts.deep_view();
            assert(fragments.take(i + 1) =~= fragments.take(i as int).push(fragments[i as int]));
            lemma_concatenation_push(fragments.take(i as int), fragments[i as int]);
        }
        i += 1;
    }
    proof {
        assert(parts.deep_view().take(parts@.len() as int) =~= parts.deep_view());
    }
    out
}

impl Part {
    /// Wraps the given text unchanged as a pattern fragment.
    pub fn new(pattern: &str) -> (result: Self)
        ensures
            result@ == pattern@,
    {
        Part { pattern: String::from_str(pattern) }
    }

    /// Repeats the pattern exactly `count` times: the fragment is wrapped
    /// in a plain group followed by the exact-count quantifier.
    pub fn times(&self, count: usize) -> (result: Self)
        ensures
            result@ == repetition(self@, count as nat),
    {
        let mut pattern = String::from_str("(");
        pattern.append(self.pattern.as_str());
        pattern.append("){");
        let count_text = decimal_text(count);
        pattern.append(count_text.as_str());
        pattern.append("}");
        proof {
            reveal_strlit("(");
            reveal_strlit("){");
            reveal_strlit("}");
            assert(pattern@ =~= repetition(self@, count as nat));
        }
        Part { pattern }
    }

    /// Wraps the pattern in a capturing group labeled `name`. The label is
    /// used verbatim; nothing checks that it is a legal group name.
    pub fn grouped_as(&self, name: &str) -> (result: Self)
        ensures
            result@ == named_group(name@, self@),
    {
        let mut pattern = String::from_str("(?P<");
        pattern.append(name);
        pattern.append(">");
        pattern.append(self.pattern.as_str());
        pattern.append(")");
        proof {
            reveal_strlit("(?P<");
            reveal_strlit(">");
            reveal_strlit(")");
            assert(pattern@ =~= named_group(name@, self@));
        }
        Part { pattern }
    }

    /// Concatenates the pattern with another, with no separator.
    pub fn and(&self, other: &Part) -> (result: Self)
        ensures
            result@ == self@ + other@,
    {
        let mut pattern = self.pattern.clone();
        pattern.append(other.pattern.as_str());
        Part { pattern }
    }

    /// Appends the single-digit class to the pattern.
    pub fn digit(&self) -> (result: Self)
        ensures
            result@ == self@ + digit_class(),
    {
        let mut pattern = self.pattern.clone();
        pattern.append("\\d");
        proof {
            reveal_strlit("\\d");
            assert(pattern@ =~= self@ + digit_class());
        }
        Part { pattern }
    }

    /// Matches any one of the given patterns: a non-capturing group over
    /// their alternation. The receiver's own fragment is discarded.
    pub fn any_of(&self, parts: Vec<Part>) -> (result: Self)
        ensures
            result@ == non_capturing_any_of(parts.deep_view()),
    {
        let mut pattern = String::from_str("(?:");
        let joined = alternation_text(&parts);
        pattern.append(joined.as_str());
        pattern.append(")");
        proof {
            reveal_strlit("(?:");
            reveal_strlit(")");
            assert(pattern@ =~= non_capturing_any_of(parts.deep_view()));
        }
        Part { pattern }
    }

    /// Appends the given patterns' fragments, unescaped and in order, to
    /// the pattern.
    pub fn exactly(&self, parts: Vec<Part>) -> (result: Self)
        ensures
            result@ == self@ + concatenation(parts.deep_view()),
    {
        let mut pattern = self.pattern.clone();
        let joined = concatenation_text(&parts);
        pattern.append(joined.as_str());
        Part { pattern }
    }

    /// Matches any single character. The receiver's own fragment is
    /// discarded.
    pub fn any_character(&self) -> (result: Self)
        ensures
            result@ == any_character_class(),
    {
        let pattern = String::from_str(".");
        proof {
            reveal_strlit(".");
            assert(pattern@ =~= any_character_class());
        }
        Part { pattern }
    }

    /// Repeats the pattern one or more times: the fragment is wrapped in a
    /// non-capturing group followed by the `+` quantifier.
    pub fn infinity(&self) -> (result: Self)
        ensures
            result@ == one_or_more(self@),
    {
        let mut pattern = String::from_str("(?:");
        pattern.append(self.pattern.as_str());
        pattern.append(")+");
        proof {
            reveal_strlit("(?:");
            reveal_strlit(")+");
            assert(pattern@ =~= one_or_more(self@));
        }
        Part { pattern }
    }

    /// Extracts the accumulated fragment as plain text, for an external
    /// regex engine.
    pub fn to_text(&self) -> (result: String)
        ensures
            result@ == self@,
    {
        self.pattern.clone()
    }

    /// The fragment under an identifying label, for diagnostic display.
    pub fn to_debug_text(&self) -> (result: String)
        ensures
            result@ == labeled_text(self@),
    {
        let mut pattern = String::from_str("Part(");
        pattern.append(self.pattern.as_str());
        pattern.append(")");
        proof {
            reveal_strlit("Part(");
            reveal_strlit(")");
            assert(pattern@ =~= labeled_text(self@));
        }
        pattern
    }
}

/// Extraction is deterministic: any two texts that `to_text`'s contract
/// allows for one and the same value are identical, so extracting twice
/// yields the identical string both times.
pub proof fn lemma_to_text_deterministic(p: Part, first: Seq<char>, second: Seq<char>)
    requires
        first == p@,
        second == p@,
    ensures
        first == second,
{
}

} // verus!
