//! The core [`Vls`] type: a parsed vers-like specifier.

use vstd::prelude::*;
use vstd::string::StringExecFns;
use crate::constraint::{
    VersionConstraint, ConstraintView, constraint_text, spec_parse_constraint, is_versioned, lemma_parsed_constraint,
};
use crate::comparator::Comparator;
use crate::error::{VersionConstraintError, ConstraintErrorView, VlsError, VlsErrorView};
use crate::text::{chars_of, starts_with, slice_contains};
use crate::valid_chars::{VlsSpecialCharSet, collected_rejects, collect_invalid_in};

verus! {

/// The pieces of `s` between the occurrences of `sep`, in order: one more piece than there are
/// separators, empty pieces included.
pub open spec fn split_on(s: Seq<char>, sep: char) -> Seq<Seq<char>>
    decreases s.len(),
{
    if s.len() == 0 {
        seq![Seq::<char>::empty()]
    } else {
        let init = split_on(s.drop_last(), sep);
        if s.last() == sep {
            init.push(Seq::<char>::empty())
        } else {
            init.update(init.len() - 1, init.last().push(s.last()))
        }
    }
}

/// The pieces `parts` written one after the other with `sep` between two neighbours.
pub open spec fn join_with(parts: Seq<Seq<char>>, sep: char) -> Seq<char>
    decreases parts.len(),
{
    if parts.len() == 0 {
        Seq::<char>::empty()
    } else if parts.len() == 1 {
        parts[0]
    } else {
        join_with(parts.drop_last(), sep).push(sep) + parts.last()
    }
}

/// `p` is the wildcard `*`, which matches every version.
pub open spec fn is_any_token(p: Seq<char>) -> bool {
    p == seq!['*']
}

/// Some piece of `parts` is the wildcard.
pub open spec fn has_any_token(parts: Seq<Seq<char>>) -> bool {
    exists|i: int| 0 <= i < parts.len() && #[trigger] is_any_token(parts[i])
}

/// The errors of the pieces of `parts` that are not the wildcard and fail to parse as
/// constraints, in order.
pub open spec fn part_errors(parts: Seq<Seq<char>>) -> Seq<ConstraintErrorView>
    decreases parts.len(),
{
    if parts.len() == 0 {
        Seq::<ConstraintErrorView>::empty()
    } else {
        let init = part_errors(parts.drop_last());
        if is_any_token(parts.last()) {
            init
        } else {
            match spec_parse_constraint(parts.last()) {
                Ok(_) => init,
                Err(e) => init.push(e),
            }
        }
    }
}

/// The constraints that the pieces of `parts` that are not the wildcard parse to, in order.
pub open spec fn part_constraints(parts: Seq<Seq<char>>) -> Seq<ConstraintView>
    decreases parts.len(),
{
    if parts.len() == 0 {
        Seq::<ConstraintView>::empty()
    } else {
        let init = part_constraints(parts.drop_last());
        if is_any_token(parts.last()) {
            init
        } else {
            match spec_parse_constraint(parts.last()) {
                Ok(c) => init.push(c),
                Err(_) => init,
            }
        }
    }
}

/// The versions of the constraints `cs`, in order.
pub open spec fn versions_of(cs: Seq<ConstraintView>) -> Seq<Seq<char>> {
    cs.map_values(|c: ConstraintView| c.version)
}

/// The versions that occur more than once in `vs`, each once, in the order in which their
/// second occurrences come.
pub open spec fn duplicated_versions(vs: Seq<Seq<char>>) -> Seq<Seq<char>>
    decreases vs.len(),
{
    if vs.len() == 0 {
        Seq::<Seq<char>>::empty()
    } else {
        let init = duplicated_versions(vs.drop_last());
        let v = vs.last();
        if vs.drop_last().contains(v) && !init.contains(v) {
            init.push(v)
        } else {
            init
        }
    }
}

/// The `vers:` URI prefix.
pub open spec fn vers_prefix() -> Seq<char> {
    seq!['v', 'e', 'r', 's', ':']
}

/// What a [`Vls`] stands for.
pub enum VlsView {
    Any,
    Constraints(Seq<ConstraintView>),
}

/// What parsing `s` as a VLS string gives. The checks come in this order, and the first that
/// fails decides the error: the input is empty; it is the lone wildcard `*` (which is
/// accepted); it starts with `vers:`; it holds `/`; it holds characters outside the VLS grammar;
/// some of its `|`-separated constraints are invalid (all their errors are reported); the
/// wildcard stands beside other constraints; some versions occur more than once.
pub open spec fn spec_parse_vls(s: Seq<char>) -> Result<VlsView, VlsErrorView> {
    if s.len() == 0 {
        Err(VlsErrorView::EmptyInput)
    } else if s == seq!['*'] {
        Ok(VlsView::Any)
    } else if vers_prefix().is_prefix_of(s) {
        Err(VlsErrorView::ContainsVersPrefix)
    } else if s.contains('/') {
        Err(VlsErrorView::ContainsVersioningScheme)
    } else if collected_rejects(s, |c: char| VlsSpecialCharSet::VlsString.allows(c)) is Some {
        Err(VlsErrorView::InvalidCharacters(
            collected_rejects(s, |c: char| VlsSpecialCharSet::VlsString.allows(c)).unwrap(),
        ))
    } else {
        let parts = split_on(s, '|');
        if part_errors(parts).len() > 0 {
            Err(VlsErrorView::InvalidConstraintError(part_errors(parts)))
        } else if has_any_token(parts) {
            Err(VlsErrorView::AnyWithOtherConstraints)
        } else {
            let cs = part_constraints(parts);
            let dups = duplicated_versions(versions_of(cs));
            if dups.len() > 0 {
                Err(VlsErrorView::DuplicateConstraintVersions(dups))
            } else {
                Ok(VlsView::Constraints(cs))
            }
        }
    }
}

/// A VLS view is well formed: the wildcard, or a non-empty list of constraints whose versions
/// are valid version strings, no two of them equal, and none of which is `*`.
pub open spec fn is_well_formed(v: VlsView) -> bool {
    match v {
        VlsView::Any => true,
        VlsView::Constraints(cs) => {
            &&& cs.len() > 0
            &&& forall|i: int| 0 <= i < cs.len() ==> is_versioned(#[trigger] cs[i])
            &&& versions_of(cs).no_duplicates()
        },
    }
}

/// The text of a VLS: `*` for the wildcard, else its constraints' texts separated by `|`.
pub open spec fn vls_text(v: VlsView) -> Seq<char> {
    match v {
        VlsView::Any => seq!['*'],
        VlsView::Constraints(cs) => join_with(cs.map_values(|c: ConstraintView| constraint_text(c)), '|'),
    }
}

/// The views of the constraints `cs`.
pub open spec fn constraint_views(cs: Seq<VersionConstraint>) -> Seq<ConstraintView> {
    cs.map_values(|c: VersionConstraint| c@)
}

/// The views of the constraint errors `es`.
pub open spec fn error_views(es: Seq<VersionConstraintError>) -> Seq<ConstraintErrorView> {
    es.map_values(|e: VersionConstraintError| e@)
}

/// The views of the strings `ss`.
pub open spec fn string_views(ss: Seq<String>) -> Seq<Seq<char>> {
    ss.map_values(|s: String| s@)
}

/// A **Vers-like Specifier** (VLS): the `<constraints>` part of a vers URI without the
/// `vers:<type>/` prefix.
///
/// It is either the wildcard `*`, which matches every version, or an ordered,
/// `|`-separated, non-empty list of constraints with pairwise distinct versions. Due to the
/// unspecified format of the versions, only exact matching is possible.
///
/// ```text
/// vls            = "*" / constraint *( "|" constraint )
/// constraint     = comparator version-string / version-string
/// comparator     = "!=" / "<=" / ">=" / "<" / ">" / "="
/// version-string = 1*( ALPHA / DIGIT / "-" / "." / "_" / "+" / "~" )
/// ```
#[derive(Debug, Clone, PartialEq, Eq)]
pub enum Vls {
    /// The wildcard `*`.
    Any,
    /// The constraints, in their order.
    Constraints(Vec<VersionConstraint>),
}

impl View for Vls {
    type V = VlsView;

    open spec fn view(&self) -> VlsView {
        match self {
            Vls::Any => VlsView::Any,
            Vls::Constraints(cs) => VlsView::Constraints(constraint_views(cs@)),
        }
    }
}

/// Parses one `|`-separated piece of a VLS string: the wildcard is noted in `any_seen`, a
/// constraint joins `constraints`, an error joins `errors`.
fn take_part(
    part: &[char],
    constraints: &mut Vec<VersionConstraint>,
    errors: &mut Vec<VersionConstraintError>,
    any_seen: &mut bool,
    Ghost(done): Ghost<Seq<Seq<char>>>,
)
    requires
        constraint_views(old(constraints)@) == part_constraints(done),
        error_views(old(errors)@) == part_errors(done),
        *old(any_seen) == has_any_token(done),
    ensures
        constraint_views(final(constraints)@) == part_constraints(done.push(part@)),
        error_views(final(errors)@) == part_errors(done.push(part@)),
        *final(any_seen) == has_any_token(done.push(part@)),
{
    let ghost parts = done.push(part@);
    assert(parts.drop_last() =~= done);
    assert(parts.last() == part@);
    assert(has_any_token(parts) == (has_any_token(done) || is_any_token(part@))) by {
        if is_any_token(part@) {
            assert(is_any_token(parts[done.len() as int]));
        }
        if has_any_token(parts) && !is_any_token(part@) {
            let i = choose|i: int| 0 <= i < parts.len() && #[trigger] is_any_token(parts[i]);
            assert(i != done.len());
            assert(done[i] == parts[i]);
        }
        if has_any_token(done) {
            let i = choose|i: int| 0 <= i < done.len() && #[trigger] is_any_token(done[i]);
            assert(parts[i] == done[i]);
        }
    }
    if part.len() == 1 && part[0] == '*' {
        assert(part@ =~= seq!['*']);
        *any_seen = true;
        return;
    }
    assert(!is_any_token(part@)) by {
        if is_any_token(part@) {
            assert(part@.len() == 1 && part@[0] == '*');
        }
    }
    match VersionConstraint::parse_chars(part) {
        Ok(c) => {
            let ghost before = constraints@;
            constraints.push(c);
            assert(constraint_views(constraints@) =~= constraint_views(before).push(c@));
        },
        Err(e) => {
            let ghost before = errors@;
            errors.push(e);
            assert(error_views(errors@) =~= error_views(before).push(e@));
        },
    }
}


/// How the pieces of a string grow by one character.
proof fn lemma_split_step(s: Seq<char>, i: int, sep: char)
    requires
        0 <= i < s.len(),
    ensures
        s[i] == sep ==> split_on(s.take(i + 1), sep) == split_on(s.take(i), sep).push(Seq::<char>::empty()),
        s[i] != sep ==> split_on(s.take(i + 1), sep) == split_on(s.take(i), sep).update(
            split_on(s.take(i), sep).len() - 1,
            split_on(s.take(i), sep).last().push(s[i]),
        ),
{
    assert(s.take(i + 1).drop_last() =~= s.take(i));
    assert(s.take(i + 1).last() == s[i]);
}

/// The constraints that the pieces give are none of them `*`, and have valid versions.
pub proof fn lemma_part_constraints_versioned(parts: Seq<Seq<char>>)
    ensures
        forall|i: int| 0 <= i < part_constraints(parts).len() ==> is_versioned(#[trigger] part_constraints(parts)[i]),
    decreases parts.len(),
{
    if parts.len() > 0 {
        let init = parts.drop_last();
        lemma_part_constraints_versioned(init);
        lemma_parsed_constraint(parts.last());
        let ci = part_constraints(init);
        assert forall|i: int| 0 <= i < part_constraints(parts).len() implies is_versioned(#[trigger] part_constraints(parts)[i]) by {
            if i < ci.len() {
                assert(part_constraints(parts)[i] == ci[i]);
            }
        }
    }
}

/// Returns whether the version of `constraints[j]` is that of an earlier constraint.
fn seen_before(constraints: &Vec<VersionConstraint>, j: usize) -> (b: bool)
    requires
        j < constraints@.len(),
        forall|i: int| 0 <= i < constraints@.len() ==> is_versioned(#[trigger] constraint_views(constraints@)[i]),
    ensures
        b == versions_of(constraint_views(constraints@)).take(j as int).contains(
            versions_of(constraint_views(constraints@))[j as int],
        ),
{
    let ghost vs = versions_of(constraint_views(constraints@));
    for k in 0..j
        invariant
            j < constraints@.len(),
            forall|i: int| 0 <= i < constraints@.len() ==> is_versioned(#[trigger] constraint_views(constraints@)[i]),
            vs == versions_of(constraint_views(constraints@)),
            forall|l: int| 0 <= l < k ==> vs[l] != vs[j as int],
    {
        assert(is_versioned(constraint_views(constraints@)[k as int]));
        assert(is_versioned(constraint_views(constraints@)[j as int]));
        if constraints[k].version().same_as(constraints[j].version()) {
            assert(vs.take(j as int)[k as int] == vs[j as int]);
            return true;
        }
    }
    proof {
        if vs.take(j as int).contains(vs[j as int]) {
            let l = choose|l: int| 0 <= l < j && vs.take(j as int)[l] == vs[j as int];
            assert(vs[l] == vs[j as int]);
        }
    }
    false
}

/// Returns whether `strings` holds a string with the characters of `s`.
fn holds_string(strings: &Vec<String>, s: &String) -> (b: bool)
    ensures
        b == string_views(strings@).contains(s@),
{
    let n = strings.len();
    for k in 0..n
        invariant
            n == strings@.len(),
            forall|l: int| 0 <= l < k ==> strings@[l]@ != s@,
    {
        if strings[k] == *s {
            assert(string_views(strings@)[k as int] == s@);
            return true;
        }
    }
    proof {
        if string_views(strings@).contains(s@) {
            let l = choose|l: int| 0 <= l < n && string_views(strings@)[l] == s@;
            assert(strings@[l]@ == s@);
        }
    }
    false
}

/// The versions that occur more than once among `constraints`, as `duplicated_versions` lists
/// them.
fn find_duplicates(constraints: &Vec<VersionConstraint>) -> (dups: Vec<String>)
    requires
        forall|i: int| 0 <= i < constraints@.len() ==> is_versioned(#[trigger] constraint_views(constraints@)[i]),
    ensures
        string_views(dups@) == duplicated_versions(versions_of(constraint_views(constraints@))),
{
    let ghost vs = versions_of(constraint_views(constraints@));
    let mut dups: Vec<String> = Vec::new();
    let m = constraints.len();
    for j in 0..m
        invariant
            m == constraints@.len(),
            forall|i: int| 0 <= i < constraints@.len() ==> is_versioned(#[trigger] constraint_views(constraints@)[i]),
            vs == versions_of(constraint_views(constraints@)),
            string_views(dups@) == duplicated_versions(vs.take(j as int)),
    {
        assert(vs.take(j + 1).drop_last() =~= vs.take(j as int));
        assert(vs.take(j + 1).last() == vs[j as int]);
        assert(is_versioned(constraint_views(constraints@)[j as int]));
        let version = constraints[j].version().as_str().to_owned();
        assert(version@ == vs[j as int]);
        if seen_before(constraints, j) && !holds_string(&dups, &version) {
            let ghost before = dups@;
            dups.push(version);
            assert(string_views(dups@) =~= string_views(before).push(vs[j as int]));
        }
    }
    assert(vs.take(m as int) =~= vs);
    dups
}

/// The constraints of a VLS view: none for the wildcard.
pub open spec fn view_constraints(v: VlsView) -> Seq<ConstraintView> {
    match v {
        VlsView::Any => Seq::<ConstraintView>::empty(),
        VlsView::Constraints(cs) => cs,
    }
}

/// The VLS pins exactly one version: it is a single equality constraint.
pub open spec fn pins_single_version(v: VlsView) -> bool {
    &&& v is Constraints
    &&& view_constraints(v).len() == 1
    &&& view_constraints(v)[0].comparator is Equal
}

/// Parses the `|`-separated pieces of `cs`: the constraints they give, the errors of those that
/// fail, and whether the wildcard is among them.
fn parse_parts(cs: &[char]) -> (r: (Vec<VersionConstraint>, Vec<VersionConstraintError>, bool))
    ensures
        constraint_views(r.0@) == part_constraints(split_on(cs@, '|')),
        error_views(r.1@) == part_errors(split_on(cs@, '|')),
        r.2 == has_any_token(split_on(cs@, '|')),
{
    let ghost text = cs@;
    let n = cs.len();
    let mut constraints: Vec<VersionConstraint> = Vec::new();
    let mut errors: Vec<VersionConstraintError> = Vec::new();
    let mut any_seen = false;
    let mut start: usize = 0;
    let ghost mut done: Seq<Seq<char>> = Seq::empty();
    assert(text.take(0) =~= Seq::<char>::empty());
    assert(text.subrange(0, 0) =~= Seq::<char>::empty());
    assert(split_on(text.take(0), '|') =~= done.push(text.subrange(0, 0)));
    for i in 0..n
        invariant
            n == text.len(),
            text == cs@,
            start <= i,
            split_on(text.take(i as int), '|') == done.push(text.subrange(start as int, i as int)),
            constraint_views(constraints@) == part_constraints(done),
            error_views(errors@) == part_errors(done),
            any_seen == has_any_token(done),
    {
        proof { lemma_split_step(text, i as int, '|'); }
        if cs[i] == '|' {
            take_part(&cs[start..i], &mut constraints, &mut errors, &mut any_seen, Ghost(done));
            proof {
                done = done.push(text.subrange(start as int, i as int));
                assert(text.subrange(i + 1, i + 1) =~= Seq::<char>::empty());
            }
            start = i + 1;
        } else {
            assert(text.subrange(start as int, i + 1) =~= text.subrange(start as int, i as int).push(text[i as int]));
            assert(split_on(text.take(i + 1), '|') =~= done.push(text.subrange(start as int, i + 1)));
        }
    }
    take_part(&cs[start..n], &mut constraints, &mut errors, &mut any_seen, Ghost(done));
    proof {
        done = done.push(text.subrange(start as int, n as int));
        assert(text.take(n as int) =~= text);
    }
    (constraints, errors, any_seen)
}

impl Vls {
    /// Returns the constraints: none for the wildcard.
    pub fn constraints(&self) -> (cs: &[VersionConstraint])
        ensures
            constraint_views(cs@) == view_constraints(self@),
    {
        match self {
            Vls::Any => {
                let empty: &[VersionConstraint] = &[];
                assert(constraint_views(empty@) =~= Seq::<ConstraintView>::empty());
                empty
            },
            Vls::Constraints(cs) => cs.as_slice(),
        }
    }

    /// Returns whether this is the wildcard `*`, which matches every version.
    pub fn is_any(&self) -> (b: bool)
        ensures
            b == (self@ is Any),
    {
        match self {
            Vls::Any => true,
            Vls::Constraints(_) => false,
        }
    }

    /// Returns `true` if this specifier pins exactly one version, i.e. it holds a single
    /// equality constraint, explicit or implicit.
    pub fn is_single_version(&self) -> (b: bool)
        ensures
            b == pins_single_version(self@),
    {
        match self {
            Vls::Any => false,
            Vls::Constraints(cs) => cs.len() == 1 && matches!(cs[0].comparator(), Comparator::Equal(_)),
        }
    }

    /// The VLS written out: `*` for the wildcard, else its constraints separated by `|`.
    pub fn to_string(&self) -> (s: String)
        ensures
            s@ == vls_text(self@),
    {
        match self {
            Vls::Any => {
                proof { reveal_strlit("*"); }
                String::from_str("*")
            },
            Vls::Constraints(cs) => {
                let ghost texts = constraint_views(cs@).map_values(|c: ConstraintView| constraint_text(c));
                let mut s = String::new();
                let n = cs.len();
                for i in 0..n
                    invariant
                        n == cs@.len(),
                        texts == constraint_views(cs@).map_values(|c: ConstraintView| constraint_text(c)),
                        s@ == join_with(texts.take(i as int), '|'),
                {
                    let ghost before = s@;
                    assert(texts.take(i + 1).drop_last() =~= texts.take(i as int));
                    assert(texts.take(i + 1).last() == texts[i as int]);
                    if i > 0 {
                        proof { reveal_strlit("|"); }
                        s.append("|");
                    }
                    s.append(cs[i].to_string().as_str());
                    proof {
                        if i == 0 {
                            assert(texts.take(1) =~= seq![texts[0]]);
                            assert(s@ =~= before + texts[0]);
                        } else {
                            assert(s@ =~= before.push('|') + texts[i as int]);
                        }
                    }
                }
                assert(texts.take(n as int) =~= texts);
                s
            },
        }
    }

    /// Parses `s` as a VLS string. The first problem found decides the error, in the order
    /// that `spec_parse_vls` gives; among the constraints, every invalid one is reported.
    pub fn from_str(s: &str) -> (r: Result<Vls, VlsError>)
        ensures
            match r {
                Ok(v) => spec_parse_vls(s@) == Ok::<VlsView, VlsErrorView>(v@),
                Err(e) => spec_parse_vls(s@) == Err::<VlsView, VlsErrorView>(e@),
            },
    {
        if s.is_empty() {
            return Err(VlsError::EmptyInput);
        }
        let cs = chars_of(s);
        if cs.len() == 1 && cs[0] == '*' {
            assert(s@ =~= seq!['*']);
            return Ok(Vls::Any);
        }
        assert(s@ != seq!['*']) by {
            if s@ == seq!['*'] {
                assert(cs@.len() == 1 && cs@[0] == '*');
            }
        }
        proof { reveal_strlit("vers:"); }
        assert("vers:"@ == vers_prefix());
        if starts_with(cs.as_slice(), "vers:") {
            return Err(VlsError::ContainsVersPrefix);
        }
        if slice_contains(cs.as_slice(), '/') {
            return Err(VlsError::ContainsVersioningScheme);
        }
        if let Some(invalid) = collect_invalid_in(cs.as_slice(), VlsSpecialCharSet::VlsString) {
            return Err(VlsError::InvalidCharacters(invalid));
        }
        let (constraints, errors, any_seen) = parse_parts(cs.as_slice());
        if errors.len() > 0 {
            return Err(VlsError::InvalidConstraintError(errors));
        }
        if any_seen {
            return Err(VlsError::AnyWithOtherConstraints);
        }
        proof { lemma_part_constraints_versioned(split_on(cs@, '|')); }
        let dups = find_duplicates(&constraints);
        if dups.len() > 0 {
            return Err(VlsError::DuplicateConstraintVersions(dups));
        }
        Ok(Vls::Constraints(constraints))
    }
}

impl std::str::FromStr for Vls {
    type Err = VlsError;

    fn from_str(s: &str) -> (r: Result<Vls, VlsError>)
        ensures
            match r {
                Ok(v) => spec_parse_vls(s@) == Ok::<VlsView, VlsErrorView>(v@),
                Err(e) => spec_parse_vls(s@) == Err::<VlsView, VlsErrorView>(e@),
            },
    {
        Vls::from_str(s)
    }
}

} // verus!
