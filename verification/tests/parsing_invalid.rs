use std::collections::HashSet;
use vls::{VersionConstraintError, Vls, VlsError};

#[test]
fn parse_empty_string_is_error() {
    let err = "".parse::<Vls>().unwrap_err();
    assert!(matches!(err, VlsError::EmptyInput));
}

fn check_empty_constraint(input: &str, expected_count: usize) {
    let err = input.parse::<Vls>().unwrap_err();
    assert!(matches!(err, VlsError::InvalidConstraintError(_)));
    if let VlsError::InvalidConstraintError(errors) = err {
        assert_eq!(errors.len(), expected_count);
        assert!(errors.iter().all(|e| matches!(e, VersionConstraintError::EmptyConstraint)));
    }
}

#[test]
fn parse_empty_constraint_only_pipes() {
    check_empty_constraint("|||", 4);
}

#[test]
fn parse_empty_constraint_pipe_between_valid() {
    check_empty_constraint("<4.2||>6", 1);
}

#[test]
fn parse_empty_constraint_multiple_consecutive_pipes() {
    check_empty_constraint("<4.2|||>6", 2);
}

#[test]
fn parse_empty_constraint_leading_pipe() {
    check_empty_constraint("|<4.2|>6", 1);
}

#[test]
fn parse_empty_constraint_trailing_pipe() {
    check_empty_constraint("<4.2|>6|", 1);
}

#[test]
fn parse_empty_constraint_leading_and_trailing_pipes() {
    check_empty_constraint("||<4.2|>6||", 4);
}

#[test]
fn parse_empty_constraint_leading_between_trailing() {
    check_empty_constraint("||<4.2|||>6||", 6);
}

fn check_empty_version(input: &str, expected_count: usize) {
    let err = input.parse::<Vls>().unwrap_err();
    assert!(matches!(err, VlsError::InvalidConstraintError(_)));
    if let VlsError::InvalidConstraintError(errors) = err {
        assert_eq!(errors.len(), expected_count);
        assert!(errors.iter().all(|e| matches!(e, VersionConstraintError::EmptyVersion)));
    }
}

#[test]
fn parse_empty_version_bare_equal() {
    check_empty_version("=", 1);
}

#[test]
fn parse_empty_version_bare_not_equal() {
    check_empty_version("!=", 1);
}

#[test]
fn parse_empty_version_bare_less_than() {
    check_empty_version("<", 1);
}

#[test]
fn parse_empty_version_bare_less_than_or_equal() {
    check_empty_version("<=", 1);
}

#[test]
fn parse_empty_version_bare_greater_than() {
    check_empty_version(">", 1);
}

#[test]
fn parse_empty_version_bare_greater_than_or_equal() {
    check_empty_version(">=", 1);
}

#[test]
fn parse_empty_version_two_bare_comparators() {
    check_empty_version(">=|<=", 2);
}

#[test]
fn parse_empty_version_bare_with_valid() {
    check_empty_version(">|<=2.0", 1);
}

#[test]
fn parse_empty_version_valid_with_bare() {
    check_empty_version(">=1.0|<", 1);
}

#[test]
fn parse_empty_version_multiple_bare() {
    check_empty_version("=|!=|<", 3);
}

fn check_invalid_version_characters(input: &str, expected_count: usize, expected_chars: Vec<Vec<char>>) {
    let err = input.parse::<Vls>().unwrap_err();
    assert!(matches!(err, VlsError::InvalidConstraintError(_)));
    if let VlsError::InvalidConstraintError(errors) = err {
        assert_eq!(errors.len(), expected_count);
        for (i, error) in errors.iter().enumerate() {
            match error {
                VersionConstraintError::InvalidVersionCharacters(chars) => {
                    assert_eq!(chars, &expected_chars[i]);
                }
                other => panic!("Expected InvalidVersionCharacters, got: {:?}", other),
            }
        }
    }
}

#[test]
fn parse_invalid_version_characters_equals_in_version() {
    check_invalid_version_characters(">=1.0=2", 1, vec![vec!['=']]);
}

#[test]
fn parse_invalid_version_characters_star_in_version() {
    check_invalid_version_characters(">=1.0*", 1, vec![vec!['*']]);
}

#[test]
fn parse_invalid_version_characters_bang_in_version() {
    check_invalid_version_characters(">=1.0!beta", 1, vec![vec!['!']]);
}

#[test]
fn parse_invalid_version_characters_less_than_in_version() {
    check_invalid_version_characters(">=1.0<2", 1, vec![vec!['<']]);
}

#[test]
fn parse_invalid_version_characters_greater_than_in_version() {
    check_invalid_version_characters(">=1.0>2", 1, vec![vec!['>']]);
}

#[test]
fn parse_invalid_version_characters_multiple_invalid_in_version() {
    check_invalid_version_characters(">=1.0=!beta", 1, vec![vec!['!', '=']]);
}

#[test]
fn parse_invalid_version_characters_star_and_equals_in_version() {
    check_invalid_version_characters(">=1.0*=2", 1, vec![vec!['*', '=']]);
}

#[test]
fn parse_invalid_version_characters_multiple_constraints_one_invalid() {
    check_invalid_version_characters(">=1.0|<=2.0*", 1, vec![vec!['*']]);
}

#[test]
fn parse_invalid_version_characters_multiple_constraints_all_invalid() {
    check_invalid_version_characters(">=1.0=x|<=2.0*", 2, vec![vec!['='], vec!['*']]);
}

#[test]
fn parse_vers_prefix_is_error_vers() {
    let err = "vers:gem/>=2.2.0".parse::<Vls>().unwrap_err();
    assert!(matches!(err, VlsError::ContainsVersPrefix));
}

#[test]
fn parse_vers_prefix_is_error_vers_all() {
    let err = "vers:all/*".parse::<Vls>().unwrap_err();
    assert!(matches!(err, VlsError::ContainsVersPrefix));
}

#[test]
fn parse_bare_scheme_is_error_gem_scheme() {
    let err = "gem/>=2.2.0".parse::<Vls>().unwrap_err();
    assert!(matches!(err, VlsError::ContainsVersioningScheme));
}

#[test]
fn parse_bare_scheme_is_error_only_scheme_delimiter() {
    let err = "/>=2.2.0".parse::<Vls>().unwrap_err();
    assert!(matches!(err, VlsError::ContainsVersioningScheme));
}

fn check_invalid_characters(input: &str, expected_chars: Vec<char>) {
    let err = input.parse::<Vls>().unwrap_err();
    assert!(matches!(err, VlsError::InvalidCharacters(_)));
    if let VlsError::InvalidCharacters(chars) = err {
        assert_eq!(chars, expected_chars);
    }
}

#[test]
fn parse_invalid_characters_space_in_version() {
    check_invalid_characters(">=1.0 beta", vec![' ']);
}

#[test]
fn parse_invalid_characters_leading_whitespace() {
    check_invalid_characters(" >=1.0", vec![' ']);
}

#[test]
fn parse_invalid_characters_trailing_whitespace() {
    check_invalid_characters(">=1.0 ", vec![' ']);
}

#[test]
fn parse_invalid_characters_whitespace_around_pipe() {
    check_invalid_characters(">=1.0 | <=2.0", vec![' ']);
}

#[test]
fn parse_invalid_characters_only_whitespace() {
    check_invalid_characters(" ", vec![' ']);
}

#[test]
fn parse_invalid_characters_only_multi_whitespace() {
    check_invalid_characters("   ", vec![' ']);
}

#[test]
fn parse_invalid_characters_comma() {
    check_invalid_characters(">=1,0", vec![',']);
}

#[test]
fn parse_invalid_characters_at_sign() {
    check_invalid_characters(">=1.0@beta", vec!['@']);
}

#[test]
fn parse_invalid_characters_hash() {
    check_invalid_characters("1.0#rc1", vec!['#']);
}

#[test]
fn parse_invalid_characters_dollar_sign() {
    check_invalid_characters(">=1.0|<=2.0$beta", vec!['$']);
}

#[test]
fn parse_invalid_characters_space_and_comma() {
    check_invalid_characters(">=1,0 beta", vec![' ', ',']);
}

#[test]
fn parse_invalid_characters_hash_and_at() {
    check_invalid_characters("1.0#rc1@beta", vec!['#', '@']);
}

#[test]
fn parse_invalid_characters_multiple_different() {
    check_invalid_characters("$1.0 @2.0#3", vec![' ', '#', '$', '@']);
}

#[test]
fn parse_wildcard_with_other_constraints_before() {
    let err = "*|>=1.0".parse::<Vls>().unwrap_err();
    assert!(matches!(err, VlsError::AnyWithOtherConstraints));
}

#[test]
fn parse_wildcard_with_other_constraints_after() {
    let err = ">=1.0|*".parse::<Vls>().unwrap_err();
    assert!(matches!(err, VlsError::AnyWithOtherConstraints));
}

#[test]
fn parse_wildcard_with_other_constraints_between() {
    let err = ">=1.0|*|<=2.0".parse::<Vls>().unwrap_err();
    assert!(matches!(err, VlsError::AnyWithOtherConstraints));
}

fn check_duplicates(input: &str, expected: Vec<&str>) {
    let err = input.parse::<Vls>().unwrap_err();
    assert!(matches!(err, VlsError::DuplicateConstraintVersions(_)));
    if let VlsError::DuplicateConstraintVersions(dupes) = err {
        let expected: HashSet<String> = expected.into_iter().map(String::from).collect();
        let found: HashSet<String> = dupes.iter().cloned().collect();
        assert_eq!(found.len(), dupes.len());
        assert_eq!(found, expected);
    }
}

#[test]
fn parse_duplicate_constraints_same_comparator() {
    check_duplicates(">1.0|>1.0", vec!["1.0"]);
}

#[test]
fn parse_duplicate_constraints_different_comparator() {
    check_duplicates("!=3.0|>3.0", vec!["3.0"]);
}

#[test]
fn parse_duplicate_constraints_impl_expl_equals() {
    check_duplicates("!=3.0|=3.0", vec!["3.0"]);
}

#[test]
fn parse_duplicate_constraints_triple_duplicate() {
    check_duplicates(">=1.0|!=1.0|=1.0", vec!["1.0"]);
}

#[test]
fn parse_duplicate_constraints_multiple_different_duplicates() {
    check_duplicates("1.0|>2.0|!=1.0|>=2.0", vec!["1.0", "2.0"]);
}

#[test]
fn parse_duplicate_constraints_duplicate_unique_mixed() {
    check_duplicates("!=1.0|<=2.0|>1.0", vec!["1.0"]);
}
