//! Validated version strings.

use vstd::prelude::*;
use crate::error::{VersionConstraintError, ConstraintErrorView};
use crate::text::{chars_of, string_of};
use crate::valid_chars::{VlsSpecialCharSet, collected_rejects, collect_invalid_in};

verus! {

/// `s` is a valid version string: non-empty, of ASCII letters, digits and `-._+~` only.
pub open spec fn is_valid_version(s: Seq<char>) -> bool {
    &&& s.len() > 0
    &&& forall|i: int| 0 <= i < s.len() ==> VlsSpecialCharSet::VersionString.allows(#[trigger] s[i])
}

/// What parsing `s` as a version string gives.
pub open spec fn spec_parse_version(s: Seq<char>) -> Result<Seq<char>, ConstraintErrorView> {
    if s.len() == 0 {
        Err(ConstraintErrorView::EmptyVersion)
    } else {
        match collected_rejects(s, |c: char| VlsSpecialCharSet::VersionString.allows(c)) {
            Some(v) => Err(ConstraintErrorView::InvalidVersionCharacters(v)),
            None => Ok(s),
        }
    }
}

/// A validated version string: non-empty, and of the characters of the version-string grammar
/// only.
#[derive(PartialEq, Eq, Debug, Hash)]
pub struct VersionString(String);

impl View for VersionString {
    type V = Seq<char>;

    closed spec fn view(&self) -> Seq<char> {
        self.0@
    }
}

impl Clone for VersionString {
    /// A copy with the same characters.
    fn clone(&self) -> (c: VersionString)
        ensures
            c@ == self@,
    {
        proof { use_type_invariant(self); }
        VersionString(self.0.clone())
    }
}

impl VersionString {
    /// Every version string is valid: non-empty, and of the characters of the version-string
    /// grammar only.
    #[verifier::type_invariant]
    pub closed spec fn is_valid(self) -> bool {
        is_valid_version(self.0@)
    }

    /// Returns the version string as a string slice, which is a valid version string.
    pub fn as_str(&self) -> (s: &str)
        ensures
            s@ == self@,
            is_valid_version(self@),
    {
        proof { use_type_invariant(self); }
        self.0.as_str()
    }

    /// Returns whether the two version strings hold the same characters.
    pub(crate) fn same_as(&self, other: &VersionString) -> (b: bool)
        ensures
            b == (self@ == other@),
    {
        self.0 == other.0
    }

    /// Parses and validates the characters `cs` as a version string.
    pub(crate) fn parse_chars(cs: &[char]) -> (r: Result<VersionString, VersionConstraintError>)
        ensures
            r matches Ok(v) ==> is_valid_version(v@),
            match r {
                Ok(v) => spec_parse_version(cs@) == Ok::<Seq<char>, ConstraintErrorView>(v@),
                Err(e) => spec_parse_version(cs@) == Err::<Seq<char>, ConstraintErrorView>(e@),
            },
    {
        if cs.len() == 0 {
            return Err(VersionConstraintError::EmptyVersion);
        }
        match collect_invalid_in(cs, VlsSpecialCharSet::VersionString) {
            Some(invalid) => Err(VersionConstraintError::InvalidVersionCharacters(invalid)),
            None => {
                proof { lemma_parse_version_valid(cs@); }
                Ok(VersionString(string_of(cs)))
            },
        }
    }

    /// Parses and validates `input` as a version string: it is refused when empty, and when it
    /// holds characters outside the version-string grammar, which the error lists.
    pub fn from_str(input: &str) -> (r: Result<VersionString, VersionConstraintError>)
        ensures
            match r {
                Ok(v) => spec_parse_version(input@) == Ok::<Seq<char>, ConstraintErrorView>(v@),
                Err(e) => spec_parse_version(input@) == Err::<Seq<char>, ConstraintErrorView>(e@),
            },
    {
        let cs = chars_of(input);
        VersionString::parse_chars(cs.as_slice())
    }
}

/// The valid version strings are exactly those that parse, and parse to themselves.
pub proof fn lemma_parse_version_valid(s: Seq<char>)
    ensures
        spec_parse_version(s) is Ok <==> is_valid_version(s),
        spec_parse_version(s) is Ok ==> spec_parse_version(s) == Ok::<Seq<char>, ConstraintErrorView>(s),
{
    let f = |c: char| VlsSpecialCharSet::VersionString.allows(c);
    if is_valid_version(s) {
        assert(forall|i: int| 0 <= i < s.len() ==> #[trigger] f(s[i]));
    } else if s.len() > 0 {
        let i = choose|i: int| 0 <= i < s.len() && !VlsSpecialCharSet::VersionString.allows(#[trigger] s[i]);
        assert(!f(s[i]));
    }
}

impl std::str::FromStr for VersionString {
    type Err = VersionConstraintError;

    fn from_str(s: &str) -> (r: Result<VersionString, VersionConstraintError>)
        ensures
            match r {
                Ok(v) => spec_parse_version(s@) == Ok::<Seq<char>, ConstraintErrorView>(v@),
                Err(e) => spec_parse_version(s@) == Err::<Seq<char>, ConstraintErrorView>(e@),
            },
    {
        VersionString::from_str(s)
    }
}

} // verus!
