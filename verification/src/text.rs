//! Character-level helpers on strings and character slices.

use vstd::prelude::*;

verus! {

/// `String::push` appends the character `ch` at the end of the string, as its documentation
/// states; nothing else of it (its allocation) is stated.
pub assume_specification[ String::push ](s: &mut String, ch: char)
    ensures
        final(s)@ == old(s)@.push(ch),
;

/// Returns the characters of `s`, in order.
pub fn chars_of(s: &str) -> (v: Vec<char>)
    ensures
        v@ == s@,
{
    let mut v: Vec<char> = Vec::new();
    for c in it: s.chars()
        invariant
            v@ == it.seq().take(it.index() as int),
    {
        v.push(c);
    }
    v
}

/// Returns the string made of the characters `cs`, in order.
pub fn string_of(cs: &[char]) -> (s: String)
    ensures
        s@ == cs@,
{
    let mut s = String::new();
    let n = cs.len();
    for i in 0..n
        invariant
            n == cs@.len(),
            s@ == cs@.take(i as int),
    {
        s.push(cs[i]);
        assert(cs@.take(i + 1) == cs@.take(i as int).push(cs@[i as int]));
    }
    assert(cs@.take(n as int) == cs@);
    s
}

/// Returns whether the characters of `prefix` start `cs`.
pub fn starts_with(cs: &[char], prefix: &str) -> (b: bool)
    ensures
        b == prefix@.is_prefix_of(cs@),
{
    let p = chars_of(prefix);
    if p.len() > cs.len() {
        return false;
    }
    let n = p.len();
    for i in 0..n
        invariant
            n == p@.len(),
            p@ == prefix@,
            n <= cs@.len(),
            forall|j: int| 0 <= j < i ==> p@[j] == cs@[j],
    {
        if p[i] != cs[i] {
            assert(cs@.subrange(0, n as int)[i as int] == cs@[i as int]);
            return false;
        }
    }
    assert(prefix@ =~= cs@.subrange(0, n as int));
    true
}

/// Returns whether `c` occurs in `cs`.
pub fn slice_contains(cs: &[char], c: char) -> (b: bool)
    ensures
        b == cs@.contains(c),
{
    let n = cs.len();
    for i in 0..n
        invariant
            n == cs@.len(),
            forall|j: int| 0 <= j < i ==> cs@[j] != c,
    {
        if cs[i] == c {
            return true;
        }
    }
    false
}

} // verus!
