use getargv_build::errors::BuildError;
use getargv_build::version::Version;
use getargv_build::version::VersionOrder;

#[test]
fn parse_single_component_defaults_to_zero() {
    let v = Version::parse("12").unwrap();
    assert_eq!(v, Version { major: 12, minor: 0, patch: 0 });
    assert_eq!(v.format(), "12.0.0");
}

#[test]
fn parse_two_components() {
    let v = Version::parse("10.5").unwrap();
    assert_eq!(v, Version { major: 10, minor: 5, patch: 0 });
    assert_eq!(v.format(), "10.5.0");
}

#[test]
fn parse_three_components() {
    let v = Version::parse("12.6.3").unwrap();
    assert_eq!(v, Version { major: 12, minor: 6, patch: 3 });
    assert_eq!(v.format(), "12.6.3");
}

#[test]
fn parse_tolerates_surrounding_whitespace() {
    let v = Version::parse("  10.5 \n").unwrap();
    assert_eq!(v, Version { major: 10, minor: 5, patch: 0 });
}

#[test]
fn parse_ignores_components_beyond_the_third() {
    let v = Version::parse("1.2.3.4").unwrap();
    assert_eq!(v, Version { major: 1, minor: 2, patch: 3 });
    let v = Version::parse("1.2.3.junk").unwrap();
    assert_eq!(v, Version { major: 1, minor: 2, patch: 3 });
}

#[test]
fn parse_rejects_non_numeric() {
    assert_eq!(Version::parse("abc").unwrap_err(), BuildError::InvalidVersionSyntax);
    assert_eq!(Version::parse("").unwrap_err(), BuildError::InvalidVersionSyntax);
    assert_eq!(Version::parse("1..2").unwrap_err(), BuildError::InvalidVersionSyntax);
    assert_eq!(Version::parse("1.x").unwrap_err(), BuildError::InvalidVersionSyntax);
    assert_eq!(Version::parse("-1").unwrap_err(), BuildError::InvalidVersionSyntax);
    assert_eq!(Version::parse("1.2.").unwrap_err(), BuildError::InvalidVersionSyntax);
}

#[test]
fn parse_component_overflow_is_rejected() {
    assert_eq!(Version::parse("4294967296").unwrap_err(), BuildError::InvalidVersionSyntax);
    let v = Version::parse("4294967295").unwrap();
    assert_eq!(v.major, 4294967295);
}

#[test]
fn invalid_version_error_message() {
    let e = Version::parse("abc").unwrap_err();
    assert_eq!(e.message(), "invalid version string");
}

#[test]
fn from_packed_decodes_bit_fields() {
    assert_eq!(
        Version::from_packed(0x000C0600),
        Version { major: 12, minor: 6, patch: 0 }
    );
    assert_eq!(
        Version::from_packed(0x00010203),
        Version { major: 1, minor: 2, patch: 3 }
    );
    assert_eq!(
        Version::from_packed(0xFFFFFFFF),
        Version { major: 65535, minor: 255, patch: 255 }
    );
    assert_eq!(Version::from_packed(0), Version { major: 0, minor: 0, patch: 0 });
}

#[test]
fn from_packed_agrees_with_parse() {
    let a = Version::from_packed(0x000C0600);
    let b = Version::parse("12.6.0").unwrap();
    assert_eq!(a, b);
}

#[test]
fn format_zero_version() {
    let v = Version { major: 0, minor: 0, patch: 0 };
    assert_eq!(v.format(), "0.0.0");
}

#[test]
fn compare_orders_lexicographically() {
    let a = Version { major: 10, minor: 5, patch: 9 };
    let b = Version { major: 10, minor: 6, patch: 0 };
    let c = Version { major: 11, minor: 0, patch: 0 };
    assert_eq!(a.compare(&b), VersionOrder::Less);
    assert_eq!(b.compare(&c), VersionOrder::Less);
    assert_eq!(a.compare(&c), VersionOrder::Less);
    assert_eq!(b.compare(&a), VersionOrder::Greater);
    assert_eq!(c.compare(&b), VersionOrder::Greater);
    assert_eq!(a.compare(&a), VersionOrder::Equal);
}

#[test]
fn compare_swapped_arguments_are_inverses() {
    let pairs = [
        (Version { major: 10, minor: 5, patch: 9 }, Version { major: 10, minor: 6, patch: 0 }),
        (Version { major: 1, minor: 2, patch: 3 }, Version { major: 1, minor: 2, patch: 3 }),
        (Version { major: 2, minor: 0, patch: 0 }, Version { major: 1, minor: 9, patch: 9 }),
    ];
    for (a, b) in pairs.iter() {
        match a.compare(b) {
            VersionOrder::Less => assert_eq!(b.compare(a), VersionOrder::Greater),
            VersionOrder::Equal => assert_eq!(b.compare(a), VersionOrder::Equal),
            VersionOrder::Greater => assert_eq!(b.compare(a), VersionOrder::Less),
        }
    }
}

#[test]
fn at_least_matches_ordering() {
    let a = Version { major: 10, minor: 5, patch: 9 };
    let b = Version { major: 10, minor: 6, patch: 0 };
    assert!(!a.at_least(&b));
    assert!(b.at_least(&a));
    assert!(b.at_least(&b));
}
