//! Which characters the VLS grammar allows, and the collection of those it does not.

use vstd::prelude::*;
use crate::text::chars_of;
use crate::sorted::{
    lists_in_order, sorted_chars, strictly_ascending, lemma_sorted_chars_is, insert_in_order,
    ascending_insert, lemma_ascending_insert,
};

verus! {

/// `c` is an ASCII letter or digit.
pub open spec fn is_ascii_alphanumeric(c: char) -> bool {
    ||| ('0' <= c && c <= '9')
    ||| ('A' <= c && c <= 'Z')
    ||| ('a' <= c && c <= 'z')
}

/// Returns whether `c` is an ASCII letter or digit.
pub fn ascii_alphanumeric(c: char) -> (b: bool)
    ensures
        b == is_ascii_alphanumeric(c),
{
    ('0' <= c && c <= '9') || ('A' <= c && c <= 'Z') || ('a' <= c && c <= 'z')
}

/// The code point of `c`.
pub open spec fn code(c: char) -> int {
    c as u32 as int
}

/// Distinct characters have distinct code points.
pub proof fn lemma_code_injective(c: char, d: char)
    requires
        c != d,
    ensures
        code(c) != code(d),
{
}

/// A lookup table over the ASCII code points: entry `i` tells whether the character with
/// code point `i` is one of `special`.
pub open spec fn is_lookup_of(table: Seq<bool>, special: Seq<char>) -> bool {
    &&& table.len() == 128
    &&& forall|c: char| code(c) < 128 ==> #[trigger] table[code(c)] == special.contains(c)
    &&& forall|c: char| #[trigger] special.contains(c) ==> code(c) < 128
}

/// Builds the ASCII lookup table of the characters of `valid_special`.
fn build_lookup(valid_special: &str) -> (table: [bool; 128])
    requires
        forall|i: int| 0 <= i < valid_special@.len() ==> code(#[trigger] valid_special@[i]) < 128,
    ensures
        is_lookup_of(table@, valid_special@),
{
    broadcast use vstd::array::group_array_axioms;
    let mut table = [false; 128];
    assert(forall|i: int| 0 <= i < 128 ==> table@[i] == false);
    assert forall|c: char| code(c) < 128 implies
        #[trigger] table@[code(c)] == valid_special@.take(0).contains(c) by {
        assert(!valid_special@.take(0).contains(c));
    }
    for ch in it: valid_special.chars()
        invariant
            it.seq() == valid_special@,
            forall|i: int| 0 <= i < valid_special@.len() ==> code(#[trigger] valid_special@[i]) < 128,
            table@.len() == 128,
            forall|c: char| code(c) < 128 ==>
                #[trigger] table@[code(c)] == valid_special@.take(it.index() as int).contains(c),
    {
        let ghost k = it.index() as int;
        assert(valid_special@[k] == ch);
        let idx = ch as u32 as usize;
        assert(idx as int == code(ch));
        let ghost before = table@;
        table[idx] = true;
        assert forall|c: char| code(c) < 128 implies
            #[trigger] table@[code(c)] == valid_special@.take(k + 1).contains(c) by {
            let t = valid_special@.take(k + 1);
            assert(t == valid_special@.take(k).push(ch));
            if c == ch {
                assert(t[k] == ch);
            } else {
                lemma_code_injective(c, ch);
                assert(table@[code(c)] == before[code(c)]);
                if t.contains(c) {
                    let j = choose|j: int| 0 <= j < t.len() && t[j] == c;
                    assert(valid_special@.take(k)[j] == c);
                }
                if valid_special@.take(k).contains(c) {
                    let j = choose|j: int| 0 <= j < k && valid_special@.take(k)[j] == c;
                    assert(t[j] == c);
                }
            }
        }
    }
    assert(valid_special@.take(valid_special@.len() as int) == valid_special@);
    assert forall|c: char| #[trigger] valid_special@.contains(c) implies code(c) < 128 by {
        let j = choose|j: int| 0 <= j < valid_special@.len() && valid_special@[j] == c;
    }
    table
}

} // verus!

verus! {

/// The characters of `s` that `allowed` refuses.
pub open spec fn rejected(s: Seq<char>, allowed: spec_fn(char) -> bool) -> Set<char> {
    Set::new(|c: char| s.contains(c) && !allowed(c))
}

/// What collecting the characters of `s` that `allowed` refuses gives: nothing when every
/// character is allowed, else the refused ones, each once, in ascending order.
pub open spec fn collected_rejects(s: Seq<char>, allowed: spec_fn(char) -> bool) -> Option<Seq<char>> {
    if forall|i: int| 0 <= i < s.len() ==> #[trigger] allowed(s[i]) {
        None
    } else {
        Some(sorted_chars(rejected(s, allowed)))
    }
}

/// The characters of `s.take(n + 1)` are those of `s.take(n)` and `s[n]`.
pub proof fn lemma_take_next_contains(s: Seq<char>, n: int, c: char)
    requires
        0 <= n < s.len(),
    ensures
        s.take(n + 1).contains(c) <==> (s.take(n).contains(c) || s[n] == c),
{
    let t = s.take(n + 1);
    if t.contains(c) {
        let j = choose|j: int| 0 <= j < t.len() && t[j] == c;
        if j < n {
            assert(s.take(n)[j] == c);
        }
    }
    if s.take(n).contains(c) {
        let j = choose|j: int| 0 <= j < n && s.take(n)[j] == c;
        assert(t[j] == c);
    }
    if s[n] == c {
        assert(t[n] == c);
    }
}

/// An ascending listing of the characters of `s` that `allowed` refuses.
proof fn listing_of_rejects(s: Seq<char>, allowed: spec_fn(char) -> bool) -> (v: Seq<char>)
    ensures
        lists_in_order(v, rejected(s, allowed)),
    decreases s.len(),
{
    if s.len() == 0 {
        let v = Seq::<char>::empty();
        assert forall|c: char| #[trigger] v.contains(c) <==> rejected(s, allowed).contains(c) by {}
        v
    } else {
        let init = s.drop_last();
        let w = listing_of_rejects(init, allowed);
        let last = s.last();
        let v = if allowed(last) { w } else { ascending_insert(w, last) };
        if !allowed(last) {
            lemma_ascending_insert(w, last);
        }
        assert forall|c: char| #[trigger] v.contains(c) <==> rejected(s, allowed).contains(c) by {
            lemma_take_next_contains(s, s.len() - 1, c);
            assert(s.take(s.len() - 1) =~= init);
            assert(s.take(s.len() as int) =~= s);
            assert(w.contains(c) <==> rejected(init, allowed).contains(c));
        }
        v
    }
}

/// When some character is refused, the collected characters are the refused ones, each once,
/// in ascending order, and there is at least one.
pub proof fn law_collected_rejects_listed(s: Seq<char>, allowed: spec_fn(char) -> bool)
    ensures
        collected_rejects(s, allowed) matches Some(v) ==> lists_in_order(v, rejected(s, allowed)) && v.len() > 0,
{
    if collected_rejects(s, allowed) is Some {
        let w = listing_of_rejects(s, allowed);
        lemma_sorted_chars_is(w, rejected(s, allowed));
        let i = choose|i: int| 0 <= i < s.len() && !#[trigger] allowed(s[i]);
        assert(rejected(s, allowed).contains(s[i]));
        assert(w.contains(s[i]));
    }
}

/// Identifies which set of characters is considered valid in a given context.
pub enum VlsSpecialCharSet {
    /// Valid characters for a `version-string`: letters, digits and `-._+~`.
    VersionString,
    /// Valid characters for a whole VLS string: those of a version string and `=!<>|*`.
    VlsString,
}

impl VlsSpecialCharSet {
    /// The characters besides ASCII letters and digits that this set allows.
    pub open spec fn specials(self) -> Seq<char> {
        match self {
            VlsSpecialCharSet::VersionString => seq!['-', '.', '_', '+', '~'],
            VlsSpecialCharSet::VlsString => seq!['-', '.', '_', '+', '~', '=', '!', '<', '>', '|', '*'],
        }
    }

    /// `c` belongs to this set: an ASCII letter or digit, or one of the specials.
    pub open spec fn allows(self, c: char) -> bool {
        is_ascii_alphanumeric(c) || self.specials().contains(c)
    }

    /// The special characters of this set, written out.
    fn special_chars(&self) -> (s: &'static str)
        ensures
            s@ == self.specials(),
    {
        match self {
            VlsSpecialCharSet::VersionString => {
                proof { reveal_strlit("-._+~"); }
                "-._+~"
            },
            VlsSpecialCharSet::VlsString => {
                proof { reveal_strlit("-._+~=!<>|*"); }
                "-._+~=!<>|*"
            },
        }
    }

    /// The ASCII lookup table of this set's special characters.
    fn get_lookup(&self) -> (table: [bool; 128])
        ensures
            is_lookup_of(table@, self.specials()),
    {
        let special = self.special_chars();
        assert forall|i: int| 0 <= i < special@.len() implies code(#[trigger] special@[i]) < 128 by {
            match self {
                VlsSpecialCharSet::VersionString => {},
                VlsSpecialCharSet::VlsString => {},
            }
        }
        build_lookup(special)
    }
}

/// Checks that `ch` is an ASCII letter or digit, or a character that `valid_lookup` marks.
fn is_valid_char(ch: char, valid_lookup: &[bool; 128]) -> (b: bool)
    ensures
        b == (is_ascii_alphanumeric(ch) || (code(ch) < 128 && valid_lookup@[code(ch)])),
{
    let idx = ch as u32;
    ascii_alphanumeric(ch) || (idx < 128 && valid_lookup[idx as usize])
}

/// Collects the characters of `input` that are neither ASCII letters or digits nor in
/// `special_charset`, each once and in ascending order; `None` when every character is valid.
pub fn collect_invalid_characters(input: &str, special_charset: VlsSpecialCharSet) -> (r: Option<Vec<char>>)
    ensures
        r matches Some(v) ==> v@.len() > 0,
        r matches Some(v) ==> lists_in_order(v@, rejected(input@, |c: char| special_charset.allows(c))),
        match r {
            Some(v) => collected_rejects(input@, |c: char| special_charset.allows(c)) == Some(v@),
            None => collected_rejects(input@, |c: char| special_charset.allows(c)) is None,
        },
{
    let cs = chars_of(input);
    collect_invalid_in(cs.as_slice(), special_charset)
}

/// `collect_invalid_characters` on the characters `cs`.
pub(crate) fn collect_invalid_in(cs: &[char], special_charset: VlsSpecialCharSet) -> (r: Option<Vec<char>>)
    ensures
        r matches Some(v) ==> v@.len() > 0,
        r matches Some(v) ==> lists_in_order(v@, rejected(cs@, |c: char| special_charset.allows(c))),
        match r {
            Some(v) => collected_rejects(cs@, |c: char| special_charset.allows(c)) == Some(v@),
            None => collected_rejects(cs@, |c: char| special_charset.allows(c)) is None,
        },
{
    let ghost allowed = |c: char| special_charset.allows(c);
    let lookup = special_charset.get_lookup();
    let mut invalid: Vec<char> = Vec::new();
    let n = cs.len();
    for k in 0..n
        invariant
            n == cs@.len(),
            is_lookup_of(lookup@, special_charset.specials()),
            strictly_ascending(invalid@),
            forall|d: char| #[trigger] invalid@.contains(d) <==>
                (cs@.take(k as int).contains(d) && !special_charset.allows(d)),
    {
        let ch = cs[k];
        let valid = is_valid_char(ch, &lookup);
        assert(valid == special_charset.allows(ch));
        if !valid {
            insert_in_order(&mut invalid, ch);
        }
        assert forall|d: char| #[trigger] invalid@.contains(d) <==>
            (cs@.take(k + 1).contains(d) && !special_charset.allows(d)) by {
            lemma_take_next_contains(cs@, k as int, d);
        }
    }
    assert(cs@.take(n as int) == cs@);
    if invalid.len() == 0 {
        assert forall|i: int| 0 <= i < cs@.len() implies #[trigger] allowed(cs@[i]) by {
            if !allowed(cs@[i]) {
                assert(cs@.contains(cs@[i]));
                assert(invalid@.contains(cs@[i]));
            }
        }
        return None;
    }
    proof {
        let d = invalid@[0];
        assert(invalid@.contains(d));
        assert(cs@.contains(d) && !allowed(d));
        let i = choose|i: int| 0 <= i < cs@.len() && cs@[i] == d;
        assert(!allowed(cs@[i]));
        assert(lists_in_order(invalid@, rejected(cs@, allowed)));
        lemma_sorted_chars_is(invalid@, rejected(cs@, allowed));
    }
    Some(invalid)
}

} // verus!
