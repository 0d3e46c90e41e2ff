//! A single constraint: a comparator and a version string.

use vstd::prelude::*;
use vstd::string::{StrSliceExecFns, StringExecFns};
use crate::comparator::{Comparator, spec_extract_comparator, comparator_of, lemma_extracted_not_any};
use crate::error::{VersionConstraintError, ConstraintErrorView};
use crate::text::chars_of;
use crate::version::{VersionString, spec_parse_version, is_valid_version, lemma_parse_version_valid};

verus! {

/// What a [`VersionConstraint`] stands for.
pub struct ConstraintView {
    pub comparator: Comparator,
    pub version: Seq<char>,
}

/// The text of a constraint: its comparator's symbol, then its version.
pub open spec fn constraint_text(c: ConstraintView) -> Seq<char> {
    c.comparator.symbol() + c.version
}

/// The constraint `*`, which every version meets; it has no version string.
pub open spec fn any_constraint() -> ConstraintView {
    ConstraintView { comparator: Comparator::Any, version: Seq::<char>::empty() }
}

/// `c` is a constraint other than `*`, with a valid version string.
pub open spec fn is_versioned(c: ConstraintView) -> bool {
    &&& !(c.comparator is Any)
    &&& is_valid_version(c.version)
}

/// What parsing `s` as a constraint gives: an empty `s` is an empty constraint; `*` is the
/// constraint that every version meets; otherwise the comparator that starts `s`, and the rest
/// parsed as a version string.
pub open spec fn spec_parse_constraint(s: Seq<char>) -> Result<ConstraintView, ConstraintErrorView> {
    if s.len() == 0 {
        Err(ConstraintErrorView::EmptyConstraint)
    } else if s == seq!['*'] {
        Ok(any_constraint())
    } else {
        let (c, rest) = spec_extract_comparator(s);
        match spec_parse_version(rest) {
            Ok(v) => Ok(ConstraintView { comparator: c, version: v }),
            Err(e) => Err(e),
        }
    }
}

/// A constraint parsed from `s` is `*` exactly when `s` is `*`; any other has a valid version.
pub proof fn lemma_parsed_constraint(s: Seq<char>)
    ensures
        spec_parse_constraint(s) matches Ok(c) ==> {
            &&& s == seq!['*'] ==> c == any_constraint()
            &&& s != seq!['*'] ==> is_versioned(c)
        },
{
    if s.len() > 0 && s != seq!['*'] {
        lemma_extracted_not_any(s);
        lemma_parse_version_valid(spec_extract_comparator(s).1);
    }
}

/// A single version constraint pairing a [`Comparator`] with a validated [`VersionString`],
/// or the constraint `*` ([`Comparator::Any`]), which has no version string.
#[derive(PartialEq, Eq, Debug)]
pub struct VersionConstraint {
    comparator: Comparator,
    version: Option<VersionString>,
}

impl View for VersionConstraint {
    type V = ConstraintView;

    closed spec fn view(&self) -> ConstraintView {
        ConstraintView {
            comparator: self.comparator,
            version: match self.version {
                Some(v) => v@,
                None => Seq::<char>::empty(),
            },
        }
    }
}

impl Clone for VersionConstraint {
    /// A copy with the same comparator and version.
    fn clone(&self) -> (c: VersionConstraint)
        ensures
            c@ == self@,
    {
        proof { use_type_invariant(self); }
        let version = match &self.version {
            Some(v) => Some(v.clone()),
            None => None,
        };
        VersionConstraint { comparator: self.comparator, version }
    }
}

impl VersionConstraint {
    /// Exactly the constraint `*` has no version string.
    #[verifier::type_invariant]
    closed spec fn has_version_unless_any(self) -> bool {
        (self.comparator == Comparator::Any) == (self.version is None)
    }

    /// Returns the comparator of this constraint.
    pub fn comparator(&self) -> (c: &Comparator)
        ensures
            *c == self@.comparator,
            *c is Any ==> self@ == any_constraint(),
            !(*c is Any) ==> is_valid_version(self@.version),
    {
        proof { use_type_invariant(self); }
        if let Some(v) = &self.version {
            // The version string's own invariant: it is valid.
            let _ = v.as_str();
        }
        &self.comparator
    }

    /// Returns the version string of this constraint, which is not `*`.
    pub fn version(&self) -> (v: &VersionString)
        requires
            !(self@.comparator is Any),
        ensures
            v@ == self@.version,
            is_valid_version(v@),
    {
        proof { use_type_invariant(self); }
        let v = self.version.as_ref().unwrap();
        // The version string's own invariant: it is valid.
        let _ = v.as_str();
        v
    }

    /// Parses the characters `cs` as a constraint.
    pub(crate) fn parse_chars(cs: &[char]) -> (r: Result<VersionConstraint, VersionConstraintError>)
        ensures
            match r {
                Ok(c) => spec_parse_constraint(cs@) == Ok::<ConstraintView, ConstraintErrorView>(c@),
                Err(e) => spec_parse_constraint(cs@) == Err::<ConstraintView, ConstraintErrorView>(e@),
            },
    {
        if cs.len() == 0 {
            return Err(VersionConstraintError::EmptyConstraint);
        }
        if cs.len() == 1 && cs[0] == '*' {
            assert(cs@ =~= seq!['*']);
            return Ok(VersionConstraint { comparator: Comparator::Any, version: None });
        }
        assert(cs@ != seq!['*']) by {
            if cs@ == seq!['*'] {
                assert(cs@.len() == 1 && cs@[0] == '*');
            }
        }
        let comparator = comparator_of(cs);
        let n = comparator.as_str().unicode_len();
        let rest = &cs[n..cs.len()];
        assert(rest@ == cs@.skip(n as int));
        proof { lemma_extracted_not_any(cs@); }
        match VersionString::parse_chars(rest) {
            Ok(version) => Ok(VersionConstraint { comparator, version: Some(version) }),
            Err(e) => Err(e),
        }
    }

    /// Parses `constraint_str` as a constraint: `*`, which every version meets, or a comparator
    /// (`!=`, `<=`, `>=`, `<`, `>`, `=`, or none for an implicit equality) followed by a valid
    /// version string.
    pub fn from_str(constraint_str: &str) -> (r: Result<VersionConstraint, VersionConstraintError>)
        ensures
            match r {
                Ok(c) => spec_parse_constraint(constraint_str@) == Ok::<ConstraintView, ConstraintErrorView>(c@),
                Err(e) => spec_parse_constraint(constraint_str@) == Err::<ConstraintView, ConstraintErrorView>(e@),
            },
    {
        let cs = chars_of(constraint_str);
        VersionConstraint::parse_chars(cs.as_slice())
    }

    /// The constraint written out: the comparator's symbol followed by the version.
    pub fn to_string(&self) -> (s: String)
        ensures
            s@ == constraint_text(self@),
    {
        let mut s = String::new();
        s.append(self.comparator.as_str());
        if let Some(v) = &self.version {
            s.append(v.as_str());
        }
        assert(s@ =~= constraint_text(self@));
        s
    }
}

impl std::str::FromStr for VersionConstraint {
    type Err = VersionConstraintError;

    fn from_str(s: &str) -> (r: Result<VersionConstraint, VersionConstraintError>)
        ensures
            match r {
                Ok(c) => spec_parse_constraint(s@) == Ok::<ConstraintView, ConstraintErrorView>(c@),
                Err(e) => spec_parse_constraint(s@) == Err::<ConstraintView, ConstraintErrorView>(e@),
            },
    {
        VersionConstraint::from_str(s)
    }
}

} // verus!
