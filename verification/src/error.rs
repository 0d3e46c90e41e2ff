//! Error types of the library, and the values they stand for in contracts.

use vstd::prelude::*;

verus! {

/// Errors specific to a single constraint within a VLS string.
#[derive(Debug, Clone, PartialEq, Eq)]
pub enum VersionConstraintError {
    /// A constraint segment was empty (e.g. from `||`, a leading `|`, or a trailing `|`).
    EmptyConstraint,
    /// The version part of a constraint was empty (e.g. `>=` without a version).
    EmptyVersion,
    /// The version string contains characters outside the version-string grammar; they are
    /// listed once each, in ascending order.
    InvalidVersionCharacters(Vec<char>),
}

/// What a [`VersionConstraintError`] stands for.
pub enum ConstraintErrorView {
    EmptyConstraint,
    EmptyVersion,
    InvalidVersionCharacters(Seq<char>),
}

impl View for VersionConstraintError {
    type V = ConstraintErrorView;

    open spec fn view(&self) -> ConstraintErrorView {
        match self {
            VersionConstraintError::EmptyConstraint => ConstraintErrorView::EmptyConstraint,
            VersionConstraintError::EmptyVersion => ConstraintErrorView::EmptyVersion,
            VersionConstraintError::InvalidVersionCharacters(v) =>
                ConstraintErrorView::InvalidVersionCharacters(v@),
        }
    }
}

/// Errors that can occur when parsing a VLS string.
#[derive(Debug, Clone, PartialEq, Eq)]
pub enum VlsError {
    /// The input string was empty.
    EmptyInput,
    /// The input contains characters not allowed by the VLS grammar; they are listed once
    /// each, in ascending order.
    InvalidCharacters(Vec<char>),
    /// The input starts with the `vers:` URI prefix, which a VLS string must not hold.
    ContainsVersPrefix,
    /// The input most likely holds a versioning-scheme component (e.g. `gem/>=2.2.0`),
    /// indicated by the scheme delimiter `/`.
    ContainsVersioningScheme,
    /// The wildcard `*` was combined with other constraints: it must be the only one.
    AnyWithOtherConstraints,
    /// One or more constraints are invalid; the errors come in the order of the constraints.
    InvalidConstraintError(Vec<VersionConstraintError>),
    /// Versions that occur in more than one constraint, whatever the comparators; each is
    /// listed once, in the order in which its second occurrence comes.
    DuplicateConstraintVersions(Vec<String>),
}

/// What a [`VlsError`] stands for.
pub enum VlsErrorView {
    EmptyInput,
    InvalidCharacters(Seq<char>),
    ContainsVersPrefix,
    ContainsVersioningScheme,
    AnyWithOtherConstraints,
    InvalidConstraintError(Seq<ConstraintErrorView>),
    DuplicateConstraintVersions(Seq<Seq<char>>),
}

impl View for VlsError {
    type V = VlsErrorView;

    open spec fn view(&self) -> VlsErrorView {
        match self {
            VlsError::EmptyInput => VlsErrorView::EmptyInput,
            VlsError::InvalidCharacters(v) => VlsErrorView::InvalidCharacters(v@),
            VlsError::ContainsVersPrefix => VlsErrorView::ContainsVersPrefix,
            VlsError::ContainsVersioningScheme => VlsErrorView::ContainsVersioningScheme,
            VlsError::AnyWithOtherConstraints => VlsErrorView::AnyWithOtherConstraints,
            VlsError::InvalidConstraintError(es) =>
                VlsErrorView::InvalidConstraintError(es@.map_values(|e: VersionConstraintError| e@)),
            VlsError::DuplicateConstraintVersions(vs) =>
                VlsErrorView::DuplicateConstraintVersions(vs@.map_values(|v: String| v@)),
        }
    }
}

} // verus!
