//! Sequences of characters kept in strictly ascending order, which is how the library
//! reports a set of offending characters.

use vstd::prelude::*;

verus! {

/// `v` is in strictly ascending order, so that no character occurs twice in it.
pub open spec fn strictly_ascending(v: Seq<char>) -> bool {
    forall|i: int, j: int| 0 <= i < j < v.len() ==> v[i] < v[j]
}

/// `v` lists exactly the characters of `s`, each once, in ascending order.
pub open spec fn lists_in_order(v: Seq<char>, s: Set<char>) -> bool {
    &&& strictly_ascending(v)
    &&& forall|c: char| #[trigger] v.contains(c) <==> s.contains(c)
}

/// The characters of the finite set `s` in ascending order.
pub open spec fn sorted_chars(s: Set<char>) -> Seq<char> {
    choose|v: Seq<char>| lists_in_order(v, s)
}

/// Two ascending listings of the same set are the same sequence.
#[verifier::spinoff_prover]
pub proof fn lemma_listing_unique(a: Seq<char>, b: Seq<char>, s: Set<char>)
    requires
        lists_in_order(a, s),
        lists_in_order(b, s),
    ensures
        a == b,
    decreases a.len(),
{
    if a.len() == 0 {
        if b.len() > 0 {
            assert(b.contains(b[0]));
            assert(s.contains(b[0]));
            assert(a.contains(b[0]));
        }
        assert(a =~= b);
    } else {
        assert(a.contains(a[0]));
        assert(s.contains(a[0]));
        assert(b.contains(a[0]));
        assert(b.len() > 0);
        assert(b.contains(b[0]));
        assert(s.contains(b[0]));
        assert(a.contains(b[0]));
        let ka = choose|k: int| 0 <= k < b.len() && b[k] == a[0];
        let kb = choose|k: int| 0 <= k < a.len() && a[k] == b[0];
        assert(a[0] == b[0]) by {
            if ka > 0 {
                assert(b[0] < b[ka]);
            }
            if kb > 0 {
                assert(a[0] < a[kb]);
            }
        }
        let s2 = s.remove(a[0]);
        let a2 = a.drop_first();
        let b2 = b.drop_first();
        assert forall|c: char| #[trigger] a2.contains(c) <==> s2.contains(c) by {
            if a2.contains(c) {
                let k = choose|k: int| 0 <= k < a2.len() && a2[k] == c;
                assert(a[k + 1] == c);
                assert(a[0] < a[k + 1]);
                assert(a.contains(c));
            }
            if s2.contains(c) {
                assert(a.contains(c));
                let k = choose|k: int| 0 <= k < a.len() && a[k] == c;
                assert(k != 0);
                assert(a2[k - 1] == c);
            }
        }
        assert forall|c: char| #[trigger] b2.contains(c) <==> s2.contains(c) by {
            if b2.contains(c) {
                let k = choose|k: int| 0 <= k < b2.len() && b2[k] == c;
                assert(b[k + 1] == c);
                assert(b[0] < b[k + 1]);
                assert(b.contains(c));
            }
            if s2.contains(c) {
                assert(b.contains(c));
                let k = choose|k: int| 0 <= k < b.len() && b[k] == c;
                assert(k != 0);
                assert(b2[k - 1] == c);
            }
        }
        lemma_listing_unique(a2, b2, s2);
        assert(a =~= b) by {
            assert forall|i: int| 0 <= i < a.len() implies a[i] == b[i] by {
                if i > 0 {
                    assert(a[i] == a2[i - 1]);
                    assert(b[i] == b2[i - 1]);
                }
            }
        }
    }
}

/// Any ascending listing of `s` is the one that `sorted_chars` names.
pub proof fn lemma_sorted_chars_is(v: Seq<char>, s: Set<char>)
    requires
        lists_in_order(v, s),
    ensures
        sorted_chars(s) == v,
{
    let w = sorted_chars(s);
    assert(lists_in_order(w, s));
    lemma_listing_unique(w, v, s);
}

/// `v` with `c` put at its place in ascending order, unless `v` holds it already.
pub open spec fn ascending_insert(v: Seq<char>, c: char) -> Seq<char>
    decreases v.len(),
{
    if v.len() == 0 {
        seq![c]
    } else if c < v[0] {
        seq![c] + v
    } else if c == v[0] {
        v
    } else {
        seq![v[0]] + ascending_insert(v.drop_first(), c)
    }
}

/// Inserting keeps a sequence ascending, and adds exactly the inserted character.
#[verifier::spinoff_prover]
pub proof fn lemma_ascending_insert(v: Seq<char>, c: char)
    requires
        strictly_ascending(v),
    ensures
        strictly_ascending(ascending_insert(v, c)),
        forall|d: char| #[trigger] ascending_insert(v, c).contains(d) <==> (v.contains(d) || d == c),
        ascending_insert(v, c).len() > 0,
        ascending_insert(v, c)[0] == c || (v.len() > 0 && ascending_insert(v, c)[0] == v[0]),
    decreases v.len(),
{
    let w = ascending_insert(v, c);
    if v.len() == 0 {
        assert forall|d: char| #[trigger] w.contains(d) <==> (v.contains(d) || d == c) by {
            if w.contains(d) {
                assert(w[0] == d);
            }
            if d == c {
                assert(w[0] == c);
            }
        }
    } else if c < v[0] {
        assert forall|i: int, j: int| 0 <= i < j < w.len() implies w[i] < w[j] by {
            if i == 0 {
                assert(w[j] == v[j - 1]);
                if j - 1 > 0 {
                    assert(v[0] < v[j - 1]);
                }
            } else {
                assert(w[i] == v[i - 1] && w[j] == v[j - 1]);
            }
        }
        assert forall|d: char| #[trigger] w.contains(d) <==> (v.contains(d) || d == c) by {
            if w.contains(d) {
                let k = choose|k: int| 0 <= k < w.len() && w[k] == d;
                if k > 0 {
                    assert(v[k - 1] == d);
                }
            }
            if v.contains(d) {
                let k = choose|k: int| 0 <= k < v.len() && v[k] == d;
                assert(w[k + 1] == d);
            }
            if d == c {
                assert(w[0] == c);
            }
        }
    } else if c == v[0] {
        assert(v.contains(v[0]));
    } else {
        let rest = v.drop_first();
        assert(strictly_ascending(rest)) by {
            assert forall|i: int, j: int| 0 <= i < j < rest.len() implies rest[i] < rest[j] by {
                assert(rest[i] == v[i + 1] && rest[j] == v[j + 1]);
            }
        }
        lemma_ascending_insert(rest, c);
        let r = ascending_insert(rest, c);
        assert(w == seq![v[0]] + r);
        assert forall|i: int, j: int| 0 <= i < j < w.len() implies w[i] < w[j] by {
            if i == 0 {
                assert(w[j] == r[j - 1]);
                assert(r.contains(r[j - 1]));
                if rest.contains(r[j - 1]) {
                    let k = choose|k: int| 0 <= k < rest.len() && rest[k] == r[j - 1];
                    assert(v[0] < v[k + 1]);
                }
            } else {
                assert(w[i] == r[i - 1] && w[j] == r[j - 1]);
            }
        }
        assert forall|d: char| #[trigger] w.contains(d) <==> (v.contains(d) || d == c) by {
            if w.contains(d) {
                let k = choose|k: int| 0 <= k < w.len() && w[k] == d;
                if k == 0 {
                    assert(v[0] == d);
                    assert(v.contains(d));
                } else {
                    assert(r[k - 1] == d);
                    assert(r.contains(d));
                    if rest.contains(d) {
                        let m = choose|m: int| 0 <= m < rest.len() && rest[m] == d;
                        assert(v[m + 1] == d);
                    }
                }
            }
            if v.contains(d) {
                let k = choose|k: int| 0 <= k < v.len() && v[k] == d;
                if k == 0 {
                    assert(w[0] == d);
                } else {
                    assert(rest[k - 1] == d);
                    assert(rest.contains(d));
                    assert(r.contains(d));
                    let m = choose|m: int| 0 <= m < r.len() && r[m] == d;
                    assert(w[m + 1] == d);
                }
            }
            if d == c {
                assert(r.contains(c));
                let m = choose|m: int| 0 <= m < r.len() && r[m] == c;
                assert(w[m + 1] == c);
            }
        }
    }
}

/// Inserts `c` into the ascending, repetition-free `v` at its place, unless it is there.
pub fn insert_in_order(v: &mut Vec<char>, c: char)
    requires
        strictly_ascending(old(v)@),
    ensures
        strictly_ascending(final(v)@),
        forall|d: char| #[trigger] final(v)@.contains(d) <==> (old(v)@.contains(d) || d == c),
{
    let mut p: usize = 0;
    while p < v.len() && v[p] < c
        invariant
            p <= v.len(),
            forall|k: int| 0 <= k < p ==> v@[k] < c,
        decreases v.len() - p,
    {
        p = p + 1;
    }
    if p < v.len() && v[p] == c {
        return;
    }
    let ghost before = v@;
    v.insert(p, c);
    assert forall|i: int, j: int| 0 <= i < j < v@.len() implies v@[i] < v@[j] by {
        if j < p {
            assert(v@[i] == before[i] && v@[j] == before[j]);
        } else if j == p {
            assert(v@[i] == before[i]);
        } else if i < p {
            assert(v@[i] == before[i] && v@[j] == before[j - 1]);
            assert(before[p as int] > c);
            if p < j - 1 {
                assert(before[p as int] < before[j - 1]);
            }
        } else if i == p {
            assert(v@[j] == before[j - 1]);
            assert(before[p as int] > c);
            if p < j - 1 {
                assert(before[p as int] < before[j - 1]);
            }
        } else {
            assert(v@[i] == before[i - 1] && v@[j] == before[j - 1]);
        }
    }
    assert forall|d: char| #[trigger] v@.contains(d) <==> (before.contains(d) || d == c) by {
        if v@.contains(d) {
            let k = choose|k: int| 0 <= k < v@.len() && v@[k] == d;
            if k < p {
                assert(before[k] == d);
            } else if k > p {
                assert(before[k - 1] == d);
            }
        }
        if before.contains(d) {
            let k = choose|k: int| 0 <= k < before.len() && before[k] == d;
            if k < p {
                assert(v@[k] == d);
            } else {
                assert(v@[k + 1] == d);
            }
        }
        if d == c {
            assert(v@[p as int] == c);
        }
    }
}

} // verus!
