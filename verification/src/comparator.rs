//! The comparators that may start a constraint.

use vstd::prelude::*;
use vstd::string::StrSliceExecFns;
use crate::text::{chars_of, starts_with};

verus! {

/// How an equality constraint was written.
#[derive(Debug, Clone, Copy, PartialEq, Eq, Hash, Structural)]
pub enum EqualComparatorKind {
    /// Written with a leading `=`.
    Explicit,
    /// Written as a bare version string.
    Implicit,
}

/// Comparator of a constraint: how a version is compared to the constraint's version.
#[derive(Debug, Clone, Copy, PartialEq, Eq, Hash, Structural)]
pub enum Comparator {
    /// The version must be exactly equal to the constraint version (`=` or nothing).
    Equal(EqualComparatorKind),
    /// `!=`: the version must not be equal to the constraint version.
    NotEqual,
    /// `<`: the version must be less than the constraint version.
    LessThan,
    /// `<=`: the version must be less than or equal to the constraint version.
    LessThanOrEqual,
    /// `>`: the version must be greater than the constraint version.
    GreaterThan,
    /// `>=`: the version must be greater than or equal to the constraint version.
    GreaterThanOrEqual,
    /// `*`: every version matches; such a constraint has no version string.
    Any,
}

impl Comparator {
    /// The characters with which this comparator is written in a constraint.
    pub open spec fn symbol(self) -> Seq<char> {
        match self {
            Comparator::Equal(EqualComparatorKind::Explicit) => seq!['='],
            Comparator::Equal(EqualComparatorKind::Implicit) => seq![],
            Comparator::NotEqual => seq!['!', '='],
            Comparator::LessThan => seq!['<'],
            Comparator::LessThanOrEqual => seq!['<', '='],
            Comparator::GreaterThan => seq!['>'],
            Comparator::GreaterThanOrEqual => seq!['>', '='],
            Comparator::Any => seq!['*'],
        }
    }

    /// Returns the characters with which this comparator is written.
    pub fn as_str(&self) -> (s: &'static str)
        ensures
            s@ == self.symbol(),
    {
        match self {
            Comparator::Equal(EqualComparatorKind::Explicit) => {
                proof { reveal_strlit("="); }
                "="
            },
            Comparator::Equal(EqualComparatorKind::Implicit) => {
                proof { reveal_strlit(""); }
                ""
            },
            Comparator::NotEqual => {
                proof { reveal_strlit("!="); }
                "!="
            },
            Comparator::LessThan => {
                proof { reveal_strlit("<"); }
                "<"
            },
            Comparator::LessThanOrEqual => {
                proof { reveal_strlit("<="); }
                "<="
            },
            Comparator::GreaterThan => {
                proof { reveal_strlit(">"); }
                ">"
            },
            Comparator::GreaterThanOrEqual => {
                proof { reveal_strlit(">="); }
                ">="
            },
            Comparator::Any => {
                proof { reveal_strlit("*"); }
                "*"
            },
        }
    }
}


/// The comparator that starts `s`: `>=`, `<=`, `!=`, `>`, `<` and `=` are tried in that order,
/// so that a two-character comparator wins over its first character; with none of them,
/// `s` is an implicit equality.
pub open spec fn extracted_comparator(s: Seq<char>) -> Comparator {
    if Comparator::GreaterThanOrEqual.symbol().is_prefix_of(s) {
        Comparator::GreaterThanOrEqual
    } else if Comparator::LessThanOrEqual.symbol().is_prefix_of(s) {
        Comparator::LessThanOrEqual
    } else if Comparator::NotEqual.symbol().is_prefix_of(s) {
        Comparator::NotEqual
    } else if Comparator::GreaterThan.symbol().is_prefix_of(s) {
        Comparator::GreaterThan
    } else if Comparator::LessThan.symbol().is_prefix_of(s) {
        Comparator::LessThan
    } else if Comparator::Equal(EqualComparatorKind::Explicit).symbol().is_prefix_of(s) {
        Comparator::Equal(EqualComparatorKind::Explicit)
    } else {
        Comparator::Equal(EqualComparatorKind::Implicit)
    }
}

/// The comparator that starts `s`, and what follows its symbol.
pub open spec fn spec_extract_comparator(s: Seq<char>) -> (Comparator, Seq<char>) {
    let c = extracted_comparator(s);
    (c, s.skip(c.symbol().len() as int))
}

/// The comparator extracted from a string is never `*`.
pub proof fn lemma_extracted_not_any(s: Seq<char>)
    ensures
        !(extracted_comparator(s) is Any),
{
}

/// The comparator that starts the characters `cs`.
pub(crate) fn comparator_of(cs: &[char]) -> (c: Comparator)
    ensures
        c == extracted_comparator(cs@),
{
    if starts_with(cs, Comparator::GreaterThanOrEqual.as_str()) {
        Comparator::GreaterThanOrEqual
    } else if starts_with(cs, Comparator::LessThanOrEqual.as_str()) {
        Comparator::LessThanOrEqual
    } else if starts_with(cs, Comparator::NotEqual.as_str()) {
        Comparator::NotEqual
    } else if starts_with(cs, Comparator::GreaterThan.as_str()) {
        Comparator::GreaterThan
    } else if starts_with(cs, Comparator::LessThan.as_str()) {
        Comparator::LessThan
    } else if starts_with(cs, Comparator::Equal(EqualComparatorKind::Explicit).as_str()) {
        Comparator::Equal(EqualComparatorKind::Explicit)
    } else {
        Comparator::Equal(EqualComparatorKind::Implicit)
    }
}

impl Comparator {
    /// Extracts a comparator from a constraint string.
    ///
    /// Returns the matched comparator and the rest of the string after its symbol. The
    /// two-character comparators take precedence over `>` and `<`, and a string that starts
    /// with none of them is an implicit equality whose rest is the whole string.
    pub fn extract_comparator(constraint_str: &str) -> (r: (Comparator, &str))
        ensures
            (r.0, r.1@) == spec_extract_comparator(constraint_str@),
    {
        let cs = chars_of(constraint_str);
        let c = comparator_of(cs.as_slice());
        let n = c.as_str().unicode_len();
        (c, constraint_str.substring_char(n, cs.len()))
    }
}

} // verus!
