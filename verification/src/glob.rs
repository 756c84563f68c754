//! Patterns of repository names.
use vstd::prelude::*;

verus! {

/// Whether a text matches a pattern as a whole: `*` stands for any number of
/// characters, `?` for exactly one, and every other character for itself.
pub open spec fn glob_matches(pattern: Seq<char>, text: Seq<char>) -> bool
    decreases pattern.len() + text.len(),
{
    if pattern.len() == 0 {
        text.len() == 0
    } else if pattern[0] == '*' {
        glob_matches(pattern.skip(1), text) || (text.len() > 0 && glob_matches(
            pattern,
            text.skip(1),
        ))
    } else {
        text.len() > 0 && (pattern[0] == '?' || pattern[0] == text[0]) && glob_matches(
            pattern.skip(1),
            text.skip(1),
        )
    }
}

/// A pattern without `*` and `?` matches itself and nothing else.
pub proof fn exact_pattern(pattern: Seq<char>, text: Seq<char>)
    requires
        !pattern.contains('*'),
        !pattern.contains('?'),
    ensures
        glob_matches(pattern, text) == (pattern == text),
    decreases pattern.len(),
{
    if pattern.len() == 0 {
        if text.len() == 0 {
            assert(pattern =~= text);
        }
    } else {
        assert(pattern.contains(pattern[0]));
        let rest = pattern.skip(1);
        assert forall|i: int| 0 <= i < rest.len() implies rest[i] != '*' && rest[i] != '?' by {
            assert(pattern.contains(pattern[i + 1]));
        }
        if text.len() > 0 {
            exact_pattern(rest, text.skip(1));
            if pattern[0] == text[0] && rest == text.skip(1) {
                assert(pattern =~= seq![pattern[0]] + rest);
                assert(text =~= seq![text[0]] + text.skip(1));
            }
        }
    }
}

/// The pattern `*` matches every text.
pub proof fn star_matches_all(text: Seq<char>)
    ensures
        glob_matches(seq!['*'], text),
    decreases text.len(),
{
    let star = seq!['*'];
    if text.len() == 0 {
        assert(glob_matches(star.skip(1), text));
    } else {
        star_matches_all(text.skip(1));
    }
}

/// Calls `wildmatch::WildMatch::new(pattern).matches(text)`: whether the text
/// matches the pattern as a whole, `*` standing for any number of characters
/// and `?` for exactly one.
#[verifier::external_body]
pub(crate) fn wild_match(pattern: &str, text: &str) -> (r: bool)
    ensures
        r == glob_matches(pattern@, text@),
{
    wildmatch::WildMatch::new(pattern).matches(text)
}

} // verus!
