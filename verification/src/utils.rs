//! Character collection against an explicit list of allowed special characters.

use vstd::prelude::*;
use crate::sorted::{lists_in_order, strictly_ascending, lemma_sorted_chars_is, insert_in_order};
use crate::valid_chars::{is_ascii_alphanumeric, ascii_alphanumeric, collected_rejects, rejected, lemma_take_next_contains};

verus! {

/// Returns whether `c` occurs in `s`.
pub fn str_contains_char(s: &str, c: char) -> (b: bool)
    ensures
        b == s@.contains(c),
{
    for d in it: s.chars()
        invariant
            it.seq() == s@,
            !s@.take(it.index() as int).contains(c),
    {
        let ghost k = it.index() as int;
        assert(s@[k] == d);
        if d == c {
            assert(s@.contains(c));
            return true;
        }
        proof { lemma_take_next_contains(s@, k, c); }
    }
    assert(s@.take(s@.len() as int) == s@);
    false
}

/// Collects characters from `input` that are neither ASCII letters or digits nor contained in
/// `valid_special`, each once and in ascending order; `None` when every character is valid.
pub fn collect_invalid_characters(input: &str, valid_special: &str) -> (r: Option<Vec<char>>)
    ensures
        r matches Some(v) ==> v@.len() > 0,
        r matches Some(v) ==> lists_in_order(v@, rejected(input@, |c: char| is_ascii_alphanumeric(c) || valid_special@.contains(c))),
        match r {
            Some(v) => collected_rejects(input@, |c: char| is_ascii_alphanumeric(c) || valid_special@.contains(c)) == Some(v@),
            None => collected_rejects(input@, |c: char| is_ascii_alphanumeric(c) || valid_special@.contains(c)) is None,
        },
{
    let ghost allowed = |c: char| is_ascii_alphanumeric(c) || valid_special@.contains(c);
    let mut invalid: Vec<char> = Vec::new();
    for ch in it: input.chars()
        invariant
            it.seq() == input@,
            strictly_ascending(invalid@),
            forall|d: char| #[trigger] invalid@.contains(d) <==>
                (input@.take(it.index() as int).contains(d)
                    && !(is_ascii_alphanumeric(d) || valid_special@.contains(d))),
    {
        let ghost k = it.index() as int;
        assert(input@[k] == ch);
        let valid = ascii_alphanumeric(ch) || str_contains_char(valid_special, ch);
        if !valid {
            insert_in_order(&mut invalid, ch);
        }
        assert forall|d: char| #[trigger] invalid@.contains(d) <==>
            (input@.take(k + 1).contains(d) && !(is_ascii_alphanumeric(d) || valid_special@.contains(d))) by {
            lemma_take_next_contains(input@, k, d);
        }
    }
    assert(input@.take(input@.len() as int) == input@);
    if invalid.len() == 0 {
        assert forall|i: int| 0 <= i < input@.len() implies #[trigger] allowed(input@[i]) by {
            if !allowed(input@[i]) {
                assert(input@.contains(input@[i]));
                assert(invalid@.contains(input@[i]));
            }
        }
        return None;
    }
    proof {
        let d = invalid@[0];
        assert(invalid@.contains(d));
        let i = choose|i: int| 0 <= i < input@.len() && input@[i] == d;
        assert(!allowed(input@[i]));
        assert(lists_in_order(invalid@, rejected(input@, allowed)));
        lemma_sorted_chars_is(invalid@, rejected(input@, allowed));
    }
    Some(invalid)
}

} // verus!
