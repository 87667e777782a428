use archlinux_repo::{
    Dependency, DependencyConstraints, DependencyVersion, DependencyVersionParseError,
};

#[test]
fn parse_dependency_version_constraint_more() {
    let dep = Dependency::from_str("test>1.0").unwrap();
    assert_eq!("test", dep.name);
    let ver = dep.version.as_ref().unwrap();
    assert_eq!("1.0", ver.version);
    assert_eq!(DependencyConstraints::MoreThan, ver.constraint);
}

#[test]
fn parse_dependency_version_constraint_less() {
    let dep = Dependency::from_str("test<1.0").unwrap();
    assert_eq!("test", dep.name);
    let ver = dep.version.as_ref().unwrap();
    assert_eq!("1.0", ver.version);
    assert_eq!(DependencyConstraints::LessThan, ver.constraint);
}

#[test]
fn parse_dependency_version_constraint_more_or_equals() {
    let dep = Dependency::from_str("test>=1.0").unwrap();
    assert_eq!("test", dep.name);
    let ver = dep.version.as_ref().unwrap();
    assert_eq!("1.0", ver.version);
    assert_eq!(DependencyConstraints::MoreOrEqualsThan, ver.constraint);
}

#[test]
fn parse_dependency_version_constraint_less_or_equals() {
    let dep = Dependency::from_str("test<=1.0").unwrap();
    assert_eq!("test", dep.name);
    let ver = dep.version.as_ref().unwrap();
    assert_eq!("1.0", ver.version);
    assert_eq!(DependencyConstraints::LessOrEqualsThan, ver.constraint);
}

#[test]
fn parse_dependency_version_constraint_equals() {
    let dep = Dependency::from_str("test=1.0").unwrap();
    assert_eq!("test", dep.name);
    let ver = dep.version.as_ref().unwrap();
    assert_eq!("1.0", ver.version);
    assert_eq!(DependencyConstraints::Equals, ver.constraint);
}

#[test]
fn dependency_without_constraint_keeps_whole_name() {
    let dep = Dependency::from_str("mingw-w64-x86_64-zlib").unwrap();
    assert_eq!("mingw-w64-x86_64-zlib", dep.name);
    assert!(dep.version.is_none());
}

#[test]
fn dependency_with_operator_but_no_version_fails() {
    assert_eq!(
        Err(DependencyVersionParseError::VersionNotFound),
        Dependency::from_str("test>=")
    );
    assert_eq!(
        Err(DependencyVersionParseError::VersionNotFound),
        Dependency::from_str("test<")
    );
}

#[test]
fn version_without_operator_fails() {
    assert_eq!(
        Err(DependencyVersionParseError::ConstraintNotFound),
        DependencyVersion::from_str("1.0")
    );
    assert_eq!(
        Err(DependencyVersionParseError::ConstraintNotFound),
        DependencyVersion::from_str("")
    );
}

#[test]
fn less_than_sign_wins_over_earlier_greater_than_sign() {
    let dep = Dependency::from_str("a>b<c").unwrap();
    assert_eq!("a>b", dep.name);
    let ver = dep.version.unwrap();
    assert_eq!(DependencyConstraints::LessThan, ver.constraint);
    assert_eq!("c", ver.version);
}

#[test]
fn constraint_operators_read_and_write() {
    for (text, c) in [
        ("<", DependencyConstraints::LessThan),
        (">", DependencyConstraints::MoreThan),
        ("=", DependencyConstraints::Equals),
        (">=", DependencyConstraints::MoreOrEqualsThan),
        ("<=", DependencyConstraints::LessOrEqualsThan),
    ] {
        assert_eq!(Ok(c), DependencyConstraints::from_str(text));
        assert_eq!(text, c.to_string());
    }
    let err = DependencyConstraints::from_str("=>").unwrap_err();
    assert_eq!("=>", err.source());
    assert_eq!("Cannot parse dependency constraint =>", err.to_string());
}

#[test]
fn dependency_writes_back_as_read() {
    for text in ["test>=1.0", "test", "lib<2", "x=3-1"] {
        assert_eq!(text, Dependency::from_str(text).unwrap().to_string());
    }
    assert_eq!(
        "Version not found",
        DependencyVersionParseError::VersionNotFound.to_string()
    );
    assert_eq!(
        "Constraint not found",
        DependencyVersionParseError::ConstraintNotFound.to_string()
    );
}
