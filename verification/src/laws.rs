//! Properties of the library as a whole: what printing undoes of parsing and back, and what
//! the reported duplicates are.

use vstd::prelude::*;
use crate::comparator::{Comparator, EqualComparatorKind, extracted_comparator, spec_extract_comparator};
use crate::constraint::{
    ConstraintView, constraint_text, spec_parse_constraint, is_versioned, any_constraint, lemma_parsed_constraint,
};
use crate::version::{lemma_parse_version_valid, spec_parse_version};
use crate::error::ConstraintErrorView;
use crate::vls::{
    split_on, join_with, part_errors, part_constraints, has_any_token, is_any_token, spec_parse_vls,
    vls_text, VlsView, versions_of, duplicated_versions, is_well_formed, vers_prefix,
    view_constraints, pins_single_version,
};
use crate::error::VlsErrorView;
use crate::valid_chars::{VlsSpecialCharSet, is_ascii_alphanumeric, collected_rejects, rejected, law_collected_rejects_listed};
use crate::sorted::lists_in_order;

verus! {

/// The comparator extracted from `s` is written at its start, and the remainder is the rest:
/// the comparator's symbol followed by the remainder gives back `s`.
pub proof fn law_extract_comparator_splits(s: Seq<char>)
    ensures
        spec_extract_comparator(s).0.symbol().is_prefix_of(s),
        spec_extract_comparator(s).0.symbol() + spec_extract_comparator(s).1 == s,
{
    let c = extracted_comparator(s);
    assert(c.symbol().is_prefix_of(s));
    assert(c.symbol() =~= s.subrange(0, c.symbol().len() as int));
    assert(c.symbol() + s.skip(c.symbol().len() as int) =~= s);
}

/// A constraint parsed from `s` is written as `s`; it is `*` exactly when `s` is, and any
/// other has a valid version.
pub proof fn law_constraint_text_of_parse(s: Seq<char>)
    ensures
        spec_parse_constraint(s) matches Ok(c) ==> {
            &&& constraint_text(c) == s
            &&& s == seq!['*'] ==> c == any_constraint()
            &&& s != seq!['*'] ==> is_versioned(c)
        },
{
    lemma_parsed_constraint(s);
    if spec_parse_constraint(s) is Ok {
        if s == seq!['*'] {
            assert(constraint_text(any_constraint()) =~= s);
        } else {
            law_extract_comparator_splits(s);
        }
    }
}

/// Appending `t` to the last piece appends `t` to the joined text.
proof fn lemma_join_extend_last(parts: Seq<Seq<char>>, sep: char, t: Seq<char>)
    requires
        parts.len() >= 1,
    ensures
        join_with(parts.update(parts.len() - 1, parts.last() + t), sep) == join_with(parts, sep) + t,
    decreases parts.len(),
{
    let q = parts.update(parts.len() - 1, parts.last() + t);
    if parts.len() == 1 {
        assert(q[0] == parts[0] + t);
    } else {
        assert(q.drop_last() =~= parts.drop_last());
        assert(q.last() == parts.last() + t);
        assert(join_with(q, sep) =~= join_with(parts, sep) + t);
    }
}

/// Joining the pieces of `s` with the separator they were split at gives back `s`.
pub proof fn law_join_split(s: Seq<char>, sep: char)
    ensures
        join_with(split_on(s, sep), sep) == s,
    decreases s.len(),
{
    if s.len() == 0 {
        assert(join_with(split_on(s, sep), sep) =~= s);
    } else {
        let init = split_on(s.drop_last(), sep);
        law_join_split(s.drop_last(), sep);
        lemma_split_len(s.drop_last(), sep);
        if s.last() == sep {
            let p = init.push(Seq::<char>::empty());
            assert(p.drop_last() =~= init);
            assert(join_with(p, sep) =~= s.drop_last().push(sep));
            assert(s =~= s.drop_last().push(sep));
        } else {
            lemma_join_extend_last(init, sep, seq![s.last()]);
            assert(init.last().push(s.last()) =~= init.last() + seq![s.last()]);
            assert(s =~= s.drop_last() + seq![s.last()]);
        }
    }
}

/// `split_on` always gives at least one piece.
pub proof fn lemma_split_len(s: Seq<char>, sep: char)
    ensures
        split_on(s, sep).len() >= 1,
    decreases s.len(),
{
    if s.len() > 0 {
        lemma_split_len(s.drop_last(), sep);
    }
}


/// The pieces of a string whose constraints all parse, with no wildcard among them, are the
/// texts of the constraints they parse to, which have valid versions.
pub proof fn lemma_parts_are_constraint_texts(parts: Seq<Seq<char>>)
    requires
        part_errors(parts).len() == 0,
        !has_any_token(parts),
    ensures
        part_constraints(parts).map_values(|c: ConstraintView| constraint_text(c)) == parts,
        part_constraints(parts).len() == parts.len(),
        forall|i: int| 0 <= i < parts.len() ==> is_versioned(#[trigger] part_constraints(parts)[i]),
    decreases parts.len(),
{
    if parts.len() == 0 {
        assert(part_constraints(parts).map_values(|c: ConstraintView| constraint_text(c)) =~= parts);
    } else {
        let init = parts.drop_last();
        let last = parts.last();
        assert(!has_any_token(init)) by {
            if has_any_token(init) {
                let i = choose|i: int| 0 <= i < init.len() && #[trigger] is_any_token(init[i]);
                assert(parts[i] == init[i]);
                assert(is_any_token(parts[i]));
            }
        }
        assert(!is_any_token(last)) by {
            if is_any_token(last) {
                assert(is_any_token(parts[parts.len() - 1]));
            }
        }
        lemma_parts_are_constraint_texts(init);
        law_constraint_text_of_parse(last);
        let ci = part_constraints(init);
        let c = spec_parse_constraint(last)->Ok_0;
        assert(part_constraints(parts) == ci.push(c));
        assert(ci.push(c).map_values(|c: ConstraintView| constraint_text(c))
            =~= ci.map_values(|c: ConstraintView| constraint_text(c)).push(constraint_text(c)));
        assert(init.push(last) =~= parts);
        assert forall|i: int| 0 <= i < parts.len() implies is_versioned(#[trigger] part_constraints(parts)[i]) by {
            if i < init.len() {
                assert(part_constraints(parts)[i] == ci[i]);
            }
        }
    }
}

/// Parsing, then printing: a VLS parsed from `s` is written as `s`.
pub proof fn law_print_of_parse(s: Seq<char>)
    ensures
        spec_parse_vls(s) matches Ok(v) ==> vls_text(v) == s,
{
    if let Ok(v) = spec_parse_vls(s) {
        match v {
            VlsView::Any => {},
            VlsView::Constraints(cs) => {
                let parts = split_on(s, '|');
                lemma_parts_are_constraint_texts(parts);
                law_join_split(s, '|');
            },
        }
    }
}


/// `v` occurs at two different places of `vs`.
pub open spec fn occurs_twice(vs: Seq<Seq<char>>, v: Seq<char>) -> bool {
    exists|i: int, j: int| 0 <= i < j < vs.len() && vs[i] == v && vs[j] == v
}

/// The duplicates reported are exactly the versions that occur more than once, each once;
/// there are none exactly when no version repeats.
pub proof fn law_duplicates_exact(vs: Seq<Seq<char>>)
    ensures
        forall|v: Seq<char>| #[trigger] duplicated_versions(vs).contains(v) <==> occurs_twice(vs, v),
        duplicated_versions(vs).no_duplicates(),
        duplicated_versions(vs).len() == 0 <==> vs.no_duplicates(),
    decreases vs.len(),
{
    let d = duplicated_versions(vs);
    if vs.len() == 0 {
        assert forall|v: Seq<char>| #[trigger] d.contains(v) <==> occurs_twice(vs, v) by {}
    } else {
        let init = vs.drop_last();
        let last = vs.last();
        let di = duplicated_versions(init);
        law_duplicates_exact(init);
        assert forall|v: Seq<char>| #[trigger] d.contains(v) <==> occurs_twice(vs, v) by {
            if d.contains(v) {
                if di.contains(v) {
                    let (i, j) = choose|i: int, j: int| 0 <= i < j < init.len() && init[i] == v && init[j] == v;
                    assert(vs[i] == v && vs[j] == v);
                } else {
                    let k = choose|k: int| 0 <= k < d.len() && d[k] == v;
                    assert(d == di.push(last));
                    if k < di.len() {
                        assert(di[k] == v);
                    }
                    assert(v == last);
                    let i = choose|i: int| 0 <= i < init.len() && init[i] == last;
                    assert(vs[i] == v && vs[vs.len() - 1] == v);
                }
            }
            if occurs_twice(vs, v) {
                let (i, j) = choose|i: int, j: int| 0 <= i < j < vs.len() && vs[i] == v && vs[j] == v;
                if j < vs.len() - 1 {
                    assert(init[i] == v && init[j] == v);
                    assert(occurs_twice(init, v));
                    assert(di.contains(v));
                    if d != di {
                        assert(d == di.push(last));
                        let k = choose|k: int| 0 <= k < di.len() && di[k] == v;
                        assert(d[k] == v);
                    }
                } else {
                    assert(v == last);
                    assert(init[i] == last);
                    assert(init.contains(last));
                    if di.contains(last) {
                        if d != di {
                            let k = choose|k: int| 0 <= k < di.len() && di[k] == v;
                            assert(d[k] == v);
                        }
                    } else {
                        assert(d == di.push(last));
                        assert(d[di.len() as int] == v);
                    }
                }
            }
        }
        assert(d.no_duplicates()) by {
            if d != di {
                assert(d == di.push(last));
                assert forall|i: int, j: int| 0 <= i < d.len() && 0 <= j < d.len() && i != j implies d[i] != d[j] by {
                    if i == di.len() {
                        assert(di[j] == d[j]);
                        assert(di.contains(d[j]));
                    } else if j == di.len() {
                        assert(di[i] == d[i]);
                        assert(di.contains(d[i]));
                    } else {
                        assert(di[i] == d[i] && di[j] == d[j]);
                    }
                }
            }
        }
        assert(d.len() == 0 <==> vs.no_duplicates()) by {
            if d.len() == 0 {
                assert forall|i: int, j: int| 0 <= i < vs.len() && 0 <= j < vs.len() && i != j implies vs[i] != vs[j] by {
                    if vs[i] == vs[j] {
                        if i < j {
                            assert(occurs_twice(vs, vs[i]));
                        } else {
                            assert(occurs_twice(vs, vs[j]));
                        }
                        assert(d.contains(vs[i]));
                    }
                }
            }
            if vs.no_duplicates() && d.len() > 0 {
                assert(d.contains(d[0]));
                assert(occurs_twice(vs, d[0]));
            }
        }
    }
}


/// Whatever parses is well formed: the wildcard, or a non-empty list of constraints with
/// valid, pairwise distinct versions.
pub proof fn law_parse_well_formed(s: Seq<char>)
    ensures
        spec_parse_vls(s) matches Ok(v) ==> is_well_formed(v),
{
    if let Ok(v) = spec_parse_vls(s) {
        match v {
            VlsView::Any => {},
            VlsView::Constraints(cs) => {
                let parts = split_on(s, '|');
                lemma_split_len(s, '|');
                lemma_parts_are_constraint_texts(parts);
                law_duplicates_exact(versions_of(cs));
            },
        }
    }
}


/// A character of a version string is also allowed in a VLS string, and is none of the
/// characters that start a comparator, separate constraints, or mark a wildcard, a scheme or
/// a URI prefix.
pub proof fn lemma_version_char(c: char)
    requires
        VlsSpecialCharSet::VersionString.allows(c),
    ensures
        VlsSpecialCharSet::VlsString.allows(c),
        c != '=' && c != '<' && c != '>' && c != '!',
        c != '|' && c != '*' && c != '/' && c != ':',
{
    let vs = VlsSpecialCharSet::VersionString.specials();
    let ls = VlsSpecialCharSet::VlsString.specials();
    if !is_ascii_alphanumeric(c) {
        let j = choose|j: int| 0 <= j < vs.len() && vs[j] == c;
        assert(ls[j] == vs[j]);
        assert(ls.contains(c));
    }
}

/// A comparator's symbol, but that of `*`, is made of characters of the VLS grammar other than
/// `|` and `*`.
pub proof fn lemma_symbol_chars(cmp: Comparator, i: int)
    requires
        !(cmp is Any),
        0 <= i < cmp.symbol().len(),
    ensures
        VlsSpecialCharSet::VlsString.allows(cmp.symbol()[i]),
        cmp.symbol()[i] != '|' && cmp.symbol()[i] != '*',
{
    let ls = VlsSpecialCharSet::VlsString.specials();
    assert(ls[5] == '=' && ls[6] == '!' && ls[7] == '<' && ls[8] == '>');
    let ch = cmp.symbol()[i];
    assert(ch == '=' || ch == '!' || ch == '<' || ch == '>');
    if ch == '=' {
        assert(ls.contains(ls[5]));
    } else if ch == '!' {
        assert(ls.contains(ls[6]));
    } else if ch == '<' {
        assert(ls.contains(ls[7]));
    } else {
        assert(ls.contains(ls[8]));
    }
}


/// Printing, then parsing a constraint: a constraint with a valid version is parsed back from
/// its text.
pub proof fn law_parse_of_constraint_text(c: ConstraintView)
    requires
        is_versioned(c),
    ensures
        spec_parse_constraint(constraint_text(c)) == Ok::<ConstraintView, crate::error::ConstraintErrorView>(c),
{
    let v = c.version;
    let sym = c.comparator.symbol();
    let t = sym + v;
    lemma_version_char(v[0]);
    assert(t[sym.len() as int] == v[0]);
    if sym.len() > 0 {
        assert(t[0] == sym[0]);
    }
    if sym.len() > 1 {
        assert(t[1] == sym[1]);
    }
    let ge = Comparator::GreaterThanOrEqual.symbol();
    let le = Comparator::LessThanOrEqual.symbol();
    let ne = Comparator::NotEqual.symbol();
    let gt = Comparator::GreaterThan.symbol();
    let lt = Comparator::LessThan.symbol();
    let eq = Comparator::Equal(EqualComparatorKind::Explicit).symbol();
    assert(sym.is_prefix_of(t)) by {
        assert(t.subrange(0, sym.len() as int) =~= sym);
    }
    // Each symbol that `extracted_comparator` tries before this one disagrees with `t` at
    // its first or second character.
    assert(ge.is_prefix_of(t) ==> c.comparator == Comparator::GreaterThanOrEqual) by {
        if ge.is_prefix_of(t) {
            assert(t[0] == ge[0] && t[1] == ge[1]);
        }
    }
    assert(le.is_prefix_of(t) ==> c.comparator == Comparator::LessThanOrEqual) by {
        if le.is_prefix_of(t) {
            assert(t[0] == le[0] && t[1] == le[1]);
        }
    }
    assert(ne.is_prefix_of(t) ==> c.comparator == Comparator::NotEqual) by {
        if ne.is_prefix_of(t) {
            assert(t[0] == ne[0] && t[1] == ne[1]);
        }
    }
    assert(gt.is_prefix_of(t) ==> c.comparator == Comparator::GreaterThan
        || c.comparator == Comparator::GreaterThanOrEqual) by {
        if gt.is_prefix_of(t) {
            assert(t[0] == gt[0]);
        }
    }
    assert(lt.is_prefix_of(t) ==> c.comparator == Comparator::LessThan
        || c.comparator == Comparator::LessThanOrEqual) by {
        if lt.is_prefix_of(t) {
            assert(t[0] == lt[0]);
        }
    }
    assert(eq.is_prefix_of(t) ==> c.comparator == Comparator::Equal(EqualComparatorKind::Explicit)) by {
        if eq.is_prefix_of(t) {
            assert(t[0] == eq[0]);
        }
    }
    assert(t != seq!['*']) by {
        if t == seq!['*'] {
            if sym.len() == 0 {
                assert(t[0] == v[0]);
            } else {
                assert(t.len() >= 2);
            }
        }
    }
    assert(extracted_comparator(t) == c.comparator);
    assert(t.skip(sym.len() as int) =~= v);
    lemma_parse_version_valid(v);
}


/// Splitting `a + l`, where `l` holds no separator, extends the last piece of `a` by `l`.
proof fn lemma_split_append(a: Seq<char>, l: Seq<char>, sep: char)
    requires
        !l.contains(sep),
    ensures
        split_on(a + l, sep) == split_on(a, sep).update(
            split_on(a, sep).len() - 1,
            split_on(a, sep).last() + l,
        ),
    decreases l.len(),
{
    lemma_split_len(a, sep);
    let sa = split_on(a, sep);
    if l.len() == 0 {
        assert(a + l =~= a);
        assert(sa.last() + l =~= sa.last());
        assert(sa.update(sa.len() - 1, sa.last() + l) =~= sa);
    } else {
        let l2 = l.drop_last();
        assert(!l2.contains(sep)) by {
            if l2.contains(sep) {
                let k = choose|k: int| 0 <= k < l2.len() && l2[k] == sep;
                assert(l[k] == sep);
            }
        }
        assert(l[l.len() - 1] != sep) by {
            if l[l.len() - 1] == sep {
                assert(l.contains(sep));
            }
        }
        lemma_split_append(a, l2, sep);
        assert((a + l).drop_last() =~= a + l2);
        assert((a + l).last() == l.last());
        assert((sa.last() + l2).push(l.last()) =~= sa.last() + l);
        assert(split_on(a + l, sep) =~= sa.update(sa.len() - 1, sa.last() + l));
    }
}

/// Splitting the join of pieces that hold no separator gives back the pieces.
pub proof fn law_split_join(parts: Seq<Seq<char>>, sep: char)
    requires
        parts.len() >= 1,
        forall|k: int| 0 <= k < parts.len() ==> !(#[trigger] parts[k]).contains(sep),
    ensures
        split_on(join_with(parts, sep), sep) == parts,
    decreases parts.len(),
{
    let e = Seq::<char>::empty();
    if parts.len() == 1 {
        lemma_split_append(e, parts[0], sep);
        assert(e + parts[0] =~= parts[0]);
        assert(split_on(e, sep) =~= seq![e]);
        assert(e + parts[0] =~= parts[0]);
        assert(seq![e].update(0, e + parts[0]) =~= parts);
    } else {
        let init = parts.drop_last();
        law_split_join(init, sep);
        let j = join_with(init, sep);
        lemma_split_append(j.push(sep), parts.last(), sep);
        assert(j.push(sep).drop_last() =~= j);
        assert(split_on(j.push(sep), sep) == init.push(e));
        assert(e + parts.last() =~= parts.last());
        assert(init.push(e).update(init.len() as int, e + parts.last()) =~= parts);
    }
}

/// Every character of the join of `parts` is the separator or a character of a piece.
proof fn lemma_join_chars(parts: Seq<Seq<char>>, sep: char, i: int)
    requires
        0 <= i < join_with(parts, sep).len(),
    ensures
        join_with(parts, sep)[i] == sep
            || exists|k: int, m: int| 0 <= k < parts.len() && 0 <= m < parts[k].len()
                && #[trigger] parts[k][m] == join_with(parts, sep)[i],
    decreases parts.len(),
{
    if parts.len() == 1 {
        assert(parts[0][i] == join_with(parts, sep)[i]);
    } else if parts.len() > 1 {
        let init = parts.drop_last();
        let j = join_with(init, sep);
        if i < j.len() {
            lemma_join_chars(init, sep, i);
            if j[i] != sep {
                let (k, m) = choose|k: int, m: int| 0 <= k < init.len() && 0 <= m < init[k].len()
                    && #[trigger] init[k][m] == j[i];
                assert(parts[k][m] == j[i]);
            }
        } else if i > j.len() {
            let m = i - j.len() - 1;
            assert(parts[parts.len() - 1][m] == join_with(parts, sep)[i]);
        }
    }
}

/// The texts of well-formed constraints parse back, as pieces of a VLS string, to the
/// constraints, without errors or wildcards.
proof fn lemma_texts_parse_back(cs: Seq<ConstraintView>)
    requires
        forall|i: int| 0 <= i < cs.len() ==> is_versioned(#[trigger] cs[i]),
    ensures
        part_errors(cs.map_values(|c: ConstraintView| constraint_text(c))).len() == 0,
        !has_any_token(cs.map_values(|c: ConstraintView| constraint_text(c))),
        part_constraints(cs.map_values(|c: ConstraintView| constraint_text(c))) == cs,
    decreases cs.len(),
{
    let texts = cs.map_values(|c: ConstraintView| constraint_text(c));
    if cs.len() == 0 {
        assert(part_constraints(texts) =~= cs);
    } else {
        let init = cs.drop_last();
        let last = cs.last();
        let ti = init.map_values(|c: ConstraintView| constraint_text(c));
        assert(forall|i: int| 0 <= i < init.len() ==> init[i] == cs[i]);
        lemma_texts_parse_back(init);
        assert(texts.drop_last() =~= ti);
        assert(texts.last() == constraint_text(last));
        law_parse_of_constraint_text(last);
        let t = constraint_text(last);
        assert(!is_any_token(t)) by {
            if is_any_token(t) {
                lemma_version_char(last.version[0]);
                if last.comparator.symbol().len() == 0 {
                    assert(t[0] == last.version[0]);
                } else {
                    lemma_symbol_chars(last.comparator, 0);
                    assert(t[0] == last.comparator.symbol()[0]);
                }
            }
        }
        assert(part_constraints(texts) =~= init.push(last));
        assert(init.push(last) =~= cs);
        assert(!has_any_token(texts)) by {
            if has_any_token(texts) {
                let i = choose|i: int| 0 <= i < texts.len() && #[trigger] is_any_token(texts[i]);
                if i < ti.len() {
                    assert(ti[i] == texts[i]);
                }
            }
        }
    }
}


/// A character of a VLS string is neither `/` nor `:`.
pub proof fn lemma_vls_char(c: char)
    requires
        VlsSpecialCharSet::VlsString.allows(c),
    ensures
        c != '/' && c != ':',
{
    let ls = VlsSpecialCharSet::VlsString.specials();
    if !is_ascii_alphanumeric(c) {
        let j = choose|j: int| 0 <= j < ls.len() && ls[j] == c;
    }
}

/// The text of a constraint with a valid version is made of characters of the VLS grammar,
/// and holds no `|`.
proof fn lemma_constraint_text_chars(c: ConstraintView, m: int)
    requires
        is_versioned(c),
        0 <= m < constraint_text(c).len(),
    ensures
        VlsSpecialCharSet::VlsString.allows(constraint_text(c)[m]),
        constraint_text(c)[m] != '|',
{
    let sym = c.comparator.symbol();
    if m < sym.len() {
        lemma_symbol_chars(c.comparator, m);
        assert(constraint_text(c)[m] == sym[m]);
    } else {
        lemma_version_char(c.version[m - sym.len()]);
        assert(constraint_text(c)[m] == c.version[m - sym.len()]);
    }
}

/// Printing, then parsing: a well-formed VLS is parsed back from its text.
pub proof fn law_parse_of_print(v: VlsView)
    requires
        is_well_formed(v),
    ensures
        spec_parse_vls(vls_text(v)) == Ok::<VlsView, VlsErrorView>(v),
{
    match v {
        VlsView::Any => {},
        VlsView::Constraints(cs) => {
            let texts = cs.map_values(|c: ConstraintView| constraint_text(c));
            let t = join_with(texts, '|');
            assert(t == vls_text(v));
            let ls = VlsSpecialCharSet::VlsString.specials();
            assert(ls[9] == '|');
            assert(ls.contains(ls[9]));
            assert forall|k: int| 0 <= k < texts.len() implies !(#[trigger] texts[k]).contains('|') by {
                if texts[k].contains('|') {
                    let m = choose|m: int| 0 <= m < texts[k].len() && texts[k][m] == '|';
                    lemma_constraint_text_chars(cs[k], m);
                }
            }
            assert forall|i: int| 0 <= i < t.len() implies VlsSpecialCharSet::VlsString.allows(#[trigger] t[i]) by {
                lemma_join_chars(texts, '|', i);
                if t[i] != '|' {
                    let (k, m) = choose|k: int, m: int| 0 <= k < texts.len() && 0 <= m < texts[k].len()
                        && #[trigger] texts[k][m] == t[i];
                    lemma_constraint_text_chars(cs[k], m);
                }
            }
            law_split_join(texts, '|');
            lemma_texts_parse_back(cs);
            law_duplicates_exact(versions_of(cs));
            let tx0 = constraint_text(cs[0]);
            assert(texts[0] == tx0);
            assert(tx0.len() > 0);
            assert(t.len() > 0) by {
                if t.len() == 0 {
                    assert(t =~= Seq::<char>::empty());
                    assert(split_on(t, '|') =~= seq![Seq::<char>::empty()]);
                    assert(texts[0].len() == 0);
                }
            }
            assert(t != seq!['*']) by {
                if t == seq!['*'] {
                    assert(t.drop_last() =~= Seq::<char>::empty());
                    assert(split_on(t, '|') =~= seq![seq!['*']]);
                    assert(is_any_token(texts[0]));
                }
            }
            assert(!vers_prefix().is_prefix_of(t)) by {
                if vers_prefix().is_prefix_of(t) {
                    assert(t[4] == vers_prefix()[4]);
                    lemma_vls_char(t[4]);
                }
            }
            assert(!t.contains('/')) by {
                if t.contains('/') {
                    let i = choose|i: int| 0 <= i < t.len() && t[i] == '/';
                    lemma_vls_char(t[i]);
                }
            }
            let f = |c: char| VlsSpecialCharSet::VlsString.allows(c);
            assert(forall|i: int| 0 <= i < t.len() ==> #[trigger] f(t[i]));
            assert(collected_rejects(t, f) is None);
        },
    }
}


/// A string refused for its characters is refused with exactly the characters outside the VLS
/// grammar that it holds, each once, in ascending order.
pub proof fn law_invalid_characters_listed(s: Seq<char>)
    ensures
        spec_parse_vls(s) matches Err(VlsErrorView::InvalidCharacters(v))
            ==> v.len() > 0 && lists_in_order(v, rejected(s, |c: char| VlsSpecialCharSet::VlsString.allows(c))),
{
    law_collected_rejects_listed(s, |c: char| VlsSpecialCharSet::VlsString.allows(c));
}


/// A version refused for its characters is refused with exactly the characters outside the
/// version-string grammar that it holds, each once, in ascending order.
pub proof fn law_invalid_version_characters_listed(s: Seq<char>)
    ensures
        spec_parse_version(s) matches Err(ConstraintErrorView::InvalidVersionCharacters(v))
            ==> v.len() > 0 && lists_in_order(v, rejected(s, |c: char| VlsSpecialCharSet::VersionString.allows(c))),
{
    law_collected_rejects_listed(s, |c: char| VlsSpecialCharSet::VersionString.allows(c));
}


/// The characters of a version string are exactly the ASCII letters, upper and lower case,
/// the ASCII digits, and `-`, `.`, `_`, `+`, `~`.
pub proof fn law_version_string_chars(c: char)
    ensures
        VlsSpecialCharSet::VersionString.allows(c) <==> {
            ||| ('A' <= c && c <= 'Z')
            ||| ('a' <= c && c <= 'z')
            ||| ('0' <= c && c <= '9')
            ||| c == '-' || c == '.' || c == '_' || c == '+' || c == '~'
        },
{
    let sp = VlsSpecialCharSet::VersionString.specials();
    if sp.contains(c) {
        let j = choose|j: int| 0 <= j < sp.len() && sp[j] == c;
    }
    if c == '-' { assert(sp[0] == c); }
    if c == '.' { assert(sp[1] == c); }
    if c == '_' { assert(sp[2] == c); }
    if c == '+' { assert(sp[3] == c); }
    if c == '~' { assert(sp[4] == c); }
}

/// The characters of a VLS string are exactly those of a version string, and `=`, `!`, `<`,
/// `>`, `|`, `*`.
pub proof fn law_vls_string_chars(c: char)
    ensures
        VlsSpecialCharSet::VlsString.allows(c) <==> {
            ||| ('A' <= c && c <= 'Z')
            ||| ('a' <= c && c <= 'z')
            ||| ('0' <= c && c <= '9')
            ||| c == '-' || c == '.' || c == '_' || c == '+' || c == '~'
            ||| c == '=' || c == '!' || c == '<' || c == '>' || c == '|' || c == '*'
        },
{
    let sp = VlsSpecialCharSet::VlsString.specials();
    if sp.contains(c) {
        let j = choose|j: int| 0 <= j < sp.len() && sp[j] == c;
    }
    if c == '-' { assert(sp[0] == c); }
    if c == '.' { assert(sp[1] == c); }
    if c == '_' { assert(sp[2] == c); }
    if c == '+' { assert(sp[3] == c); }
    if c == '~' { assert(sp[4] == c); }
    if c == '=' { assert(sp[5] == c); }
    if c == '!' { assert(sp[6] == c); }
    if c == '<' { assert(sp[7] == c); }
    if c == '>' { assert(sp[8] == c); }
    if c == '|' { assert(sp[9] == c); }
    if c == '*' { assert(sp[10] == c); }
}

/// A single ASCII letter (either case) or digit is a valid version string, and as a VLS string
/// it parses to the one implicit equality on that version.
pub proof fn law_single_alphanumeric_parses(c: char)
    requires
        ('A' <= c && c <= 'Z') || ('a' <= c && c <= 'z') || ('0' <= c && c <= '9'),
    ensures
        VlsSpecialCharSet::VersionString.allows(c),
        VlsSpecialCharSet::VlsString.allows(c),
        spec_parse_version(seq![c]) == Ok::<Seq<char>, ConstraintErrorView>(seq![c]),
        spec_parse_vls(seq![c]) == Ok::<VlsView, VlsErrorView>(VlsView::Constraints(seq![
            ConstraintView { comparator: Comparator::Equal(EqualComparatorKind::Implicit), version: seq![c] },
        ])),
{
    law_version_string_chars(c);
    law_vls_string_chars(c);
    let cv = ConstraintView { comparator: Comparator::Equal(EqualComparatorKind::Implicit), version: seq![c] };
    let v = VlsView::Constraints(seq![cv]);
    assert(crate::version::is_valid_version(seq![c]));
    lemma_parse_version_valid(seq![c]);
    assert(is_versioned(cv));
    assert(versions_of(seq![cv]) =~= seq![seq![c]]);
    assert(versions_of(seq![cv]).no_duplicates());
    assert(is_well_formed(v));
    law_parse_of_print(v);
    assert(seq![cv].map_values(|x: ConstraintView| constraint_text(x)) =~= seq![seq![c]]);
    assert(constraint_text(cv) =~= seq![c]);
    assert(vls_text(v) =~= seq![c]);
}

/// A VLS of one constraint pins a single version exactly when that constraint is an equality,
/// explicit or implicit; `!=`, `<`, `<=`, `>`, `>=` and `*` never do, nor the wildcard, nor a
/// VLS of no or several constraints.
pub proof fn law_single_version(c: ConstraintView, cs: Seq<ConstraintView>)
    ensures
        pins_single_version(VlsView::Constraints(seq![c])) <==> (
            c.comparator == Comparator::Equal(EqualComparatorKind::Explicit)
            || c.comparator == Comparator::Equal(EqualComparatorKind::Implicit)
        ),
        c.comparator == Comparator::NotEqual ==> !pins_single_version(VlsView::Constraints(seq![c])),
        c.comparator == Comparator::LessThan ==> !pins_single_version(VlsView::Constraints(seq![c])),
        c.comparator == Comparator::LessThanOrEqual ==> !pins_single_version(VlsView::Constraints(seq![c])),
        c.comparator == Comparator::GreaterThan ==> !pins_single_version(VlsView::Constraints(seq![c])),
        c.comparator == Comparator::GreaterThanOrEqual ==> !pins_single_version(VlsView::Constraints(seq![c])),
        c.comparator == Comparator::Any ==> !pins_single_version(VlsView::Constraints(seq![c])),
        !pins_single_version(VlsView::Any),
        cs.len() != 1 ==> !pins_single_version(VlsView::Constraints(cs)),
{
    assert(view_constraints(VlsView::Constraints(seq![c])) =~= seq![c]);
}

/// The constraints listed for a VLS are all of its constraints, in order, and none for the
/// wildcard; for a parsed VLS there is one per `|`-separated piece of the input, and their texts
/// are those pieces.
pub proof fn law_constraints_listed(cs: Seq<ConstraintView>, s: Seq<char>)
    ensures
        view_constraints(VlsView::Constraints(cs)) == cs,
        view_constraints(VlsView::Any).len() == 0,
        spec_parse_vls(s) matches Ok(VlsView::Constraints(parsed)) ==> {
            &&& view_constraints(VlsView::Constraints(parsed)).len() == split_on(s, '|').len()
            &&& forall|i: int| 0 <= i < parsed.len() ==>
                constraint_text(#[trigger] view_constraints(VlsView::Constraints(parsed))[i]) == split_on(s, '|')[i]
        },
{
    if let Ok(VlsView::Constraints(parsed)) = spec_parse_vls(s) {
        let parts = split_on(s, '|');
        lemma_parts_are_constraint_texts(parts);
        assert forall|i: int| 0 <= i < parsed.len() implies
            constraint_text(#[trigger] view_constraints(VlsView::Constraints(parsed))[i]) == parts[i] by {
            assert(parsed.map_values(|c: ConstraintView| constraint_text(c))[i] == constraint_text(parsed[i]));
        }
    }
}

} // verus!
