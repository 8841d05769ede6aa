//! The mathematical model of pattern fragments: spec-level descriptions of
//! escaping, decimal repetition counts, grouping, alternation and
//! concatenation, together with the laws they obey.

use vstd::prelude::*;

verus! {

/// The characters that carry meaning in the regex dialect and must be
/// escaped when they are meant to match themselves.
pub open spec fn is_metacharacter(c: char) -> bool {
    ||| c == '.'
    ||| c == '+'
    ||| c == '*'
    ||| c == '?'
    ||| c == '^'
    ||| c == '$'
    ||| c == '('
    ||| c == ')'
    ||| c == '['
    ||| c == ']'
    ||| c == '{'
    ||| c == '}'
    ||| c == '|'
    ||| c == '\\'
}

/// One character after escaping: a metacharacter gains a leading backslash,
/// any other character stands alone.
pub open spec fn escaped_char(c: char) -> Seq<char> {
    if is_metacharacter(c) {
        seq!['\\', c]
    } else {
        seq![c]
    }
}

/// A whole text after escaping, character by character.
pub open spec fn escaped_text(s: Seq<char>) -> Seq<char>
    decreases s.len(),
{
    if s.len() == 0 {
        Seq::<char>::empty()
    } else {
        escaped_char(s[0]) + escaped_text(s.drop_first())
    }
}

/// The character for one decimal digit.
pub open spec fn decimal_digit(d: int) -> char
    recommends
        0 <= d < 10,
{
    (d + 48) as char
}

/// The usual decimal rendering of a number: most significant digit first,
/// no sign, no leading zeros (a single zero for zero itself).
pub open spec fn decimal(n: nat) -> Seq<char>
    decreases n,
{
    if n < 10 {
        seq![decimal_digit(n as int)]
    } else {
        decimal(n / 10) + seq![decimal_digit((n % 10) as int)]
    }
}

/// The fragment matching one decimal digit.
pub open spec fn digit_class() -> Seq<char> {
    seq!['\\', 'd']
}

/// The fragment matching one word character (letter, digit or underscore).
pub open spec fn word_class() -> Seq<char> {
    seq!['\\', 'w']
}

/// The fragment matching one ASCII letter, pre-wrapped in a capturing group.
pub open spec fn letter_group() -> Seq<char> {
    seq!['(', '[', 'a', '-', 'z', 'A', '-', 'Z', ']', ')']
}

/// The fragment anchoring a match at the start of the input.
pub open spec fn start_anchor() -> Seq<char> {
    seq!['^']
}

/// The fragment anchoring a match at the end of the input.
pub open spec fn end_anchor() -> Seq<char> {
    seq!['$']
}

/// The fragment matching any single character.
pub open spec fn any_character_class() -> Seq<char> {
    seq!['.']
}

/// A fragment wrapped in a plain group and repeated exactly `count` times.
pub open spec fn repetition(fragment: Seq<char>, count: nat) -> Seq<char> {
    seq!['('] + fragment + seq![')', '{'] + decimal(count) + seq!['}']
}

/// A fragment wrapped in a capturing group labeled `name`.
pub open spec fn named_group(name: Seq<char>, fragment: Seq<char>) -> Seq<char> {
    seq!['(', '?', 'P', '<'] + name + seq!['>'] + fragment + seq![')']
}

/// Fragments joined into one alternation, a `|` between neighbours.
pub open spec fn alternation(fragments: Seq<Seq<char>>) -> Seq<char>
    decreases fragments.len(),
{
    if fragments.len() == 0 {
        Seq::<char>::empty()
    } else if fragments.len() == 1 {
        fragments[0]
    } else {
        fragments[0] + seq!['|'] + alternation(fragments.drop_first())
    }
}

/// Fragments laid end to end, with no separator.
pub open spec fn concatenation(fragments: Seq<Seq<char>>) -> Seq<char>
    decreases fragments.len(),
{
    if fragments.len() == 0 {
        Seq::<char>::empty()
    } else {
        fragments[0] + concatenation(fragments.drop_first())
    }
}

/// An alternation wrapped in a non-capturing group.
pub open spec fn non_capturing_any_of(fragments: Seq<Seq<char>>) -> Seq<char> {
    seq!['(', '?', ':'] + alternation(fragments) + seq![')']
}

/// An alternation wrapped in a capturing group.
pub open spec fn capturing_any_of(fragments: Seq<Seq<char>>) -> Seq<char> {
    seq!['('] + alternation(fragments) + seq![')']
}

/// A fragment wrapped in a non-capturing group and repeated one or more
/// times.
pub open spec fn one_or_more(fragment: Seq<char>) -> Seq<char> {
    seq!['(', '?', ':'] + fragment + seq![')', '+']
}

/// A fragment under the identifying label used for diagnostic display.
pub open spec fn labeled_text(fragment: Seq<char>) -> Seq<char> {
    seq!['P', 'a', 'r', 't', '('] + fragment + seq![')']
}

/// Escaping a metacharacter yields the character with one leading backslash.
pub proof fn lemma_escape_metacharacter(c: char)
    requires
        is_metacharacter(c),
    ensures
        escaped_text(seq![c]) == seq!['\\', c],
{
    reveal_with_fuel(escaped_text, 2);
    assert(seq![c].drop_first() =~= Seq::<char>::empty());
    assert(seq!['\\', c] + Seq::<char>::empty() =~= seq!['\\', c]);
}

/// Escaping leaves a character that is no metacharacter unchanged.
pub proof fn lemma_escape_plain_character(c: char)
    requires
        !is_metacharacter(c),
    ensures
        escaped_text(seq![c]) == seq![c],
{
    reveal_with_fuel(escaped_text, 2);
    assert(seq![c].drop_first() =~= Seq::<char>::empty());
    assert(seq![c] + Seq::<char>::empty() =~= seq![c]);
}

/// Escaping handles a text character by character: the escaped form of two
/// texts laid end to end is the two escaped forms laid end to end.
pub proof fn lemma_escaped_text_concat(a: Seq<char>, b: Seq<char>)
    ensures
        escaped_text(a + b) == escaped_text(a) + escaped_text(b),
    decreases a.len(),
{
    if a.len() == 0 {
        assert(a + b =~= b);
        assert(escaped_text(a) + escaped_text(b) =~= escaped_text(b));
    } else {
        lemma_escaped_text_concat(a.drop_first(), b);
        assert((a + b).drop_first() =~= a.drop_first() + b);
        assert((a + b)[0] == a[0]);
        assert((escaped_char(a[0]) + escaped_text(a.drop_first())) + escaped_text(b) =~= escaped_char(
            a[0],
        ) + (escaped_text(a.drop_first()) + escaped_text(b)));
    }
}

/// Appending one character to a text appends its escaped form to the
/// escaped text.
pub proof fn lemma_escaped_text_push(s: Seq<char>, c: char)
    ensures
        escaped_text(s.push(c)) == escaped_text(s) + escaped_char(c),
{
    assert(s.push(c) =~= s + seq![c]);
    lemma_escaped_text_concat(s, seq![c]);
    if is_metacharacter(c) {
        lemma_escape_metacharacter(c);
    } else {
        lemma_escape_plain_character(c);
    }
}

/// Concatenation of fragments is associative: however three fragments are
/// grouped, the resulting text is the same.
pub proof fn lemma_concat_associative(a: Seq<char>, b: Seq<char>, c: Seq<char>)
    ensures
        (a + b) + c == a + (b + c),
{
    assert((a + b) + c =~= a + (b + c));
}

/// Extending an alternation by one more fragment appends a `|` and that
/// fragment to its text.
pub proof fn lemma_alternation_push(fragments: Seq<Seq<char>>, fragment: Seq<char>)
    requires
        fragments.len() > 0,
    ensures
        alternation(fragments.push(fragment)) == alternation(fragments) + seq!['|'] + fragment,
    decreases fragments.len(),
{
    if fragments.len() == 1 {
        assert(fragments.push(fragment).drop_first() =~= seq![fragment]);
        assert(fragments.push(fragment)[0] == fragments[0]);
        assert(alternation(seq![fragment]) == fragment);
    } else {
        lemma_alternation_push(fragments.drop_first(), fragment);
        assert(fragments.push(fragment).drop_first() =~= fragments.drop_first().push(fragment));
        assert(fragments.push(fragment)[0] == fragments[0]);
        assert(fragments[0] + seq!['|'] + ((alternation(fragments.drop_first()) + seq!['|'])
            + fragment) =~= ((fragments[0] + seq!['|'] + alternation(fragments.drop_first()))
            + seq!['|']) + fragment);
    }
}

/// Extending a concatenation by one more fragment appends that fragment to
/// its text.
pub proof fn lemma_concatenation_push(fragments: Seq<Seq<char>>, fragment: Seq<char>)
    ensures
        concatenation(fragments.push(fragment)) == concatenation(fragments) + fragment,
    decreases fragments.len(),
{
    reveal_with_fuel(concatenation, 3);
    if fragments.len() == 0 {
        assert(fragments.push(fragment).drop_first() =~= Seq::<Seq<char>>::empty());
        assert(fragments.push(fragment)[0] == fragment);
        assert(fragment + Seq::<char>::empty() =~= fragment);
        assert(Seq::<char>::empty() + fragment =~= fragment);
    } else {
        lemma_concatenation_push(fragments.drop_first(), fragment);
        assert(fragments.push(fragment).drop_first() =~= fragments.drop_first().push(fragment));
        assert(fragments.push(fragment)[0] == fragments[0]);
        assert(fragments[0] + (concatenation(fragments.drop_first()) + fragment) =~= (fragments[0]
            + concatenation(fragments.drop_first())) + fragment);
    }
}

} // verus!
