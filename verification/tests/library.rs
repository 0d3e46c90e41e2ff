use vls::comparator::Comparator as Cmp;
use vls::valid_chars::VlsSpecialCharSet;
use vls::{Comparator, EqualComparatorKind, VersionConstraint, VersionConstraintError, VersionString, Vls, VlsError};

#[test]
fn extract_comparator_each_symbol() {
    assert_eq!(Comparator::extract_comparator(">=1.0"), (Comparator::GreaterThanOrEqual, "1.0"));
    assert_eq!(Comparator::extract_comparator("<=1.0"), (Comparator::LessThanOrEqual, "1.0"));
    assert_eq!(Comparator::extract_comparator("!=1.0"), (Comparator::NotEqual, "1.0"));
    assert_eq!(Comparator::extract_comparator(">1.0"), (Comparator::GreaterThan, "1.0"));
    assert_eq!(Comparator::extract_comparator("<1.0"), (Comparator::LessThan, "1.0"));
    assert_eq!(
        Comparator::extract_comparator("=1.0"),
        (Comparator::Equal(EqualComparatorKind::Explicit), "1.0")
    );
    assert_eq!(
        Comparator::extract_comparator("1.0"),
        (Comparator::Equal(EqualComparatorKind::Implicit), "1.0")
    );
}

#[test]
fn extract_comparator_precedence_and_remainder() {
    // `>=` wins over `>`; only one comparator is taken off.
    assert_eq!(Comparator::extract_comparator(">==2"), (Comparator::GreaterThanOrEqual, "=2"));
    assert_eq!(Comparator::extract_comparator("<<"), (Comparator::LessThan, "<"));
    assert_eq!(Comparator::extract_comparator(""), (Comparator::Equal(EqualComparatorKind::Implicit), ""));
    assert_eq!(Comparator::extract_comparator("!"), (Comparator::Equal(EqualComparatorKind::Implicit), "!"));
    assert_eq!(Comparator::extract_comparator("é>1"), (Comparator::Equal(EqualComparatorKind::Implicit), "é>1"));
}

#[test]
fn comparator_symbols() {
    assert_eq!(Cmp::Equal(EqualComparatorKind::Implicit).as_str(), "");
    assert_eq!(Cmp::Equal(EqualComparatorKind::Explicit).as_str(), "=");
    assert_eq!(Cmp::NotEqual.as_str(), "!=");
    assert_eq!(Cmp::LessThan.as_str(), "<");
    assert_eq!(Cmp::LessThanOrEqual.as_str(), "<=");
    assert_eq!(Cmp::GreaterThan.as_str(), ">");
    assert_eq!(Cmp::GreaterThanOrEqual.as_str(), ">=");
    assert_eq!(Cmp::Any.as_str(), "*");
}

#[test]
fn version_string_parsing() {
    let v: VersionString = "1.0-rc_1+build~2".parse().unwrap();
    assert_eq!(v.as_str(), "1.0-rc_1+build~2");
    assert_eq!("".parse::<VersionString>(), Err(VersionConstraintError::EmptyVersion));
    assert_eq!(
        "1.0 beta!! ".parse::<VersionString>(),
        Err(VersionConstraintError::InvalidVersionCharacters(vec![' ', '!']))
    );
    assert_eq!(
        "1.0é".parse::<VersionString>(),
        Err(VersionConstraintError::InvalidVersionCharacters(vec!['é']))
    );
}

#[test]
fn version_constraint_parsing_and_text() {
    let c: VersionConstraint = "<=2.0".parse().unwrap();
    assert_eq!(*c.comparator(), Comparator::LessThanOrEqual);
    assert_eq!(c.version().as_str(), "2.0");
    assert_eq!(c.to_string(), "<=2.0");
    let c: VersionConstraint = "2.0".parse().unwrap();
    assert_eq!(*c.comparator(), Comparator::Equal(EqualComparatorKind::Implicit));
    assert_eq!(c.to_string(), "2.0");
    assert_eq!("".parse::<VersionConstraint>(), Err(VersionConstraintError::EmptyConstraint));
    assert_eq!(">=".parse::<VersionConstraint>(), Err(VersionConstraintError::EmptyVersion));
    let any: VersionConstraint = "*".parse().unwrap();
    assert_eq!(*any.comparator(), Comparator::Any);
    assert_eq!(any.to_string(), "*");
    assert_eq!(any.clone(), any);
    assert_eq!(
        "**".parse::<VersionConstraint>(),
        Err(VersionConstraintError::InvalidVersionCharacters(vec!['*']))
    );
}

#[test]
fn collect_invalid_characters_by_charset() {
    let collect_invalid_characters = vls::valid_chars::collect_invalid_characters;
    assert_eq!(collect_invalid_characters("1.0-a_b+c~d", VlsSpecialCharSet::VersionString), None);
    assert_eq!(
        collect_invalid_characters("1.0|<2", VlsSpecialCharSet::VersionString),
        Some(vec!['<', '|'])
    );
    assert_eq!(collect_invalid_characters("1.0|<2*=!>", VlsSpecialCharSet::VlsString), None);
    assert_eq!(
        collect_invalid_characters("zé a é/", VlsSpecialCharSet::VlsString),
        Some(vec![' ', '/', 'é'])
    );
    assert_eq!(collect_invalid_characters("", VlsSpecialCharSet::VlsString), None);
}

#[test]
fn collect_invalid_characters_by_list() {
    let collect_invalid_characters = vls::utils::collect_invalid_characters;
    assert_eq!(collect_invalid_characters("a-b", "-"), None);
    assert_eq!(collect_invalid_characters("a-b.c", "-"), Some(vec!['.']));
    assert_eq!(collect_invalid_characters("b,a;,", ""), Some(vec![',', ';']));
    assert_eq!(collect_invalid_characters("xéx", "é"), None);
}

#[test]
fn single_version() {
    assert!("1.0".parse::<Vls>().unwrap().is_single_version());
    assert!("=1.0".parse::<Vls>().unwrap().is_single_version());
    assert!(!">1.0".parse::<Vls>().unwrap().is_single_version());
    assert!(!"!=1.0".parse::<Vls>().unwrap().is_single_version());
    assert!(!"*".parse::<Vls>().unwrap().is_single_version());
    assert!(!"1.0|2.0".parse::<Vls>().unwrap().is_single_version());
    assert!(!"1.0".parse::<Vls>().unwrap().is_any());
}

#[test]
fn print_of_parse_gives_back_the_input() {
    for input in ["*", "1", "=1|!=2|<3|<=4|>5|>=6", "a.b-c_d+e~f", ">10.9a|!=10.9c"] {
        let v: Vls = input.parse().unwrap();
        assert_eq!(v.to_string(), input);
    }
}

#[test]
fn parse_of_print_gives_back_the_value() {
    for input in ["*", "1.0|=2.0|!=3.0", "<=0|>zz"] {
        let v: Vls = input.parse().unwrap();
        let again: Vls = v.to_string().parse().unwrap();
        assert_eq!(again, v);
    }
    let built = Vls::Constraints(vec![
        "=1".parse::<VersionConstraint>().unwrap(),
        "2".parse::<VersionConstraint>().unwrap(),
    ]);
    assert_eq!(built.to_string(), "=1|2");
    assert_eq!(built.to_string().parse::<Vls>().unwrap(), built);
}

#[test]
fn error_precedence() {
    assert_eq!("vers:a/b".parse::<Vls>(), Err(VlsError::ContainsVersPrefix));
    assert_eq!("a b/c".parse::<Vls>(), Err(VlsError::ContainsVersioningScheme));
    assert_eq!("vers".parse::<Vls>().unwrap().to_string(), "vers");
    assert_eq!(
        "*||".parse::<Vls>(),
        Err(VlsError::InvalidConstraintError(vec![
            VersionConstraintError::EmptyConstraint,
            VersionConstraintError::EmptyConstraint,
        ]))
    );
    assert_eq!("1.0|*|1.0".parse::<Vls>(), Err(VlsError::AnyWithOtherConstraints));
    assert_eq!("**".parse::<Vls>(),
        Err(VlsError::InvalidConstraintError(vec![VersionConstraintError::InvalidVersionCharacters(vec!['*'])])));
    assert_eq!("é".parse::<Vls>(), Err(VlsError::InvalidCharacters(vec!['é'])));
}

#[test]
fn duplicates_in_order_of_second_occurrence() {
    assert_eq!(
        "2.0|1.0|>1.0|<2.0|=1.0".parse::<Vls>(),
        Err(VlsError::DuplicateConstraintVersions(vec!["1.0".to_string(), "2.0".to_string()]))
    );
}

#[test]
fn constraint_errors_in_order() {
    assert_eq!(
        "|>=|1.0 ".replace(' ', "x").parse::<Vls>(),
        Err(VlsError::InvalidConstraintError(vec![
            VersionConstraintError::EmptyConstraint,
            VersionConstraintError::EmptyVersion,
        ]))
    );
}
