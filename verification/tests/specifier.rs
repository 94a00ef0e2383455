use lpm_core::pkg::{PkgToQuery, VersionComparison, VersionStruct};

#[test]
fn parse_bare_name() {
    let q = PkgToQuery::parse("curl").unwrap();
    assert_eq!(q.name, "curl");
    assert!(q.version.is_none());
    assert_eq!(q.to_string(), "curl");
}

#[test]
fn parse_full_specifier() {
    let q = PkgToQuery::parse("openssl@>=1.2.3").unwrap();
    assert_eq!(q.name, "openssl");
    let v = q.version.unwrap();
    assert_eq!(v.major, 1);
    assert_eq!(v.minor, 2);
    assert_eq!(v.patch, 3);
    assert_eq!(v.condition, VersionComparison::GreaterThanOrEqual);
}

#[test]
fn parse_each_operator() {
    let cases = [
        ("a@=1.0.0", VersionComparison::Equal),
        ("a@>=1.0.0", VersionComparison::GreaterThanOrEqual),
        ("a@<=1.0.0", VersionComparison::LessThanOrEqual),
        ("a@>1.0.0", VersionComparison::GreaterThan),
        ("a@<1.0.0", VersionComparison::LessThan),
    ];
    for (text, op) in cases {
        let q = PkgToQuery::parse(text).unwrap();
        assert_eq!(q.version.unwrap().condition, op, "case {}", text);
    }
}

#[test]
fn round_trip_preserves_the_constraint() {
    for text in [
        "curl",
        "openssl@=1.2.3",
        "openssl@>=10.20.30",
        "zlib@<=0.0.1",
        "gcc@>12.0.5",
        "make@<4.4.1",
    ] {
        let q = PkgToQuery::parse(text).unwrap();
        let formatted = q.to_string();
        assert_eq!(formatted, text);
        let again = PkgToQuery::parse(&formatted).unwrap();
        assert_eq!(again.name, q.name);
        assert_eq!(again.version, q.version);
    }
}

#[test]
fn round_trip_normalizes_leading_zeros() {
    let q = PkgToQuery::parse("curl@=01.002.0").unwrap();
    let v = q.version.unwrap();
    assert_eq!((v.major, v.minor, v.patch), (1, 2, 0));
    let formatted = q.to_string();
    assert_eq!(formatted, "curl@=1.2.0");
    let again = PkgToQuery::parse(&formatted).unwrap();
    let v2 = again.version.unwrap();
    assert_eq!((v2.major, v2.minor, v2.patch), (1, 2, 0));
}

#[test]
fn malformed_specifiers_parse_to_nothing() {
    for text in [
        "",
        "@",
        "@=1.2.3",
        "curl@",
        "curl@1.2.3",
        "curl@=1.2",
        "curl@=1.2.3.4",
        "curl@=1..3",
        "curl@=a.b.c",
        "curl@==1.2.3",
        "curl@=1.2.x",
    ] {
        assert!(PkgToQuery::parse(text).is_none(), "case {:?}", text);
    }
}

#[test]
fn numbers_over_u64_are_rejected() {
    assert!(PkgToQuery::parse("curl@=18446744073709551615.0.0").is_some());
    assert!(PkgToQuery::parse("curl@=18446744073709551616.0.0").is_none());
}

#[test]
fn version_struct_default_is_exact_zero() {
    let q = PkgToQuery::parse("curl").unwrap();
    let v = q.version_struct();
    assert_eq!(
        v,
        VersionStruct {
            major: 0,
            minor: 0,
            patch: 0,
            condition: VersionComparison::Equal,
        }
    );
}

#[test]
fn readable_format_renders_version() {
    let v = VersionStruct {
        major: 1,
        minor: 22,
        patch: 333,
        condition: VersionComparison::Equal,
    };
    assert_eq!(v.readable_format(), "1.22.333");
    assert_eq!(v.condition.to_str_operator(), "=");
}

#[test]
fn digit_rendering_is_canonical() {
    assert_eq!(lpm_core::digits::u64_to_string(0), "0");
    assert_eq!(lpm_core::digits::u64_to_string(7), "7");
    assert_eq!(lpm_core::digits::u64_to_string(255), "255");
    assert_eq!(
        lpm_core::digits::u64_to_string(u64::MAX),
        "18446744073709551615"
    );
}
