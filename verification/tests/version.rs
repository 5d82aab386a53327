use devtoolinstaller::version::{Version, VersionOrder};

#[test]
fn test_semver() {
    let versions = ["1.22.3", "v.1.22.3", "name v1.22.3"];
    for v in versions {
        match Version::parse(v) {
            Version::Sem(x, y, z) => {
                assert_eq!(x, 1);
                assert_eq!(y, 22);
                assert_eq!(z, 3);
            }
            _ => panic!("expected type semver"),
        }
    }
}

#[test]
fn test_date() {
    match Version::parse("2023-01-22") {
        Version::Date(x, y, z) => {
            assert_eq!(x, 2023);
            assert_eq!(y, 1);
            assert_eq!(z, 22);
        }
        _ => panic!("expected type date"),
    }
}

#[test]
fn test_unknown() {
    let versions = ["", "unknown", "23/01/23"];
    for v in versions {
        match Version::parse(v) {
            Version::Unknown(s) => assert_eq!(v, s),
            _ => panic!("expected type unknown"),
        }
    }
}

#[test]
fn test_render_semantic() {
    assert_eq!(Version::Sem(1, 22, 3).render(), "v1.22.3");
    assert_eq!(Version::Sem(0, 0, 0).render(), "v0.0.0");
}

#[test]
fn test_render_date_zero_padded() {
    assert_eq!(Version::Date(2023, 1, 22).render(), "2023-01-22");
    assert_eq!(Version::Date(2023, 1, 2).render(), "2023-01-02");
    assert_eq!(Version::Date(99, 11, 3).render(), "0099-11-03");
}

#[test]
fn test_render_opaque_verbatim() {
    assert_eq!(Version::Unknown(String::from("nightly")).render(), "nightly");
}

#[test]
fn test_sem_round_trip() {
    let first = Version::parse("name v1.22.3");
    let rendered = first.render();
    assert_eq!(rendered, "v1.22.3");
    let again = Version::parse(&rendered);
    assert!(first.same(&again));
}

#[test]
fn test_date_round_trip() {
    let first = Version::parse("2023-01-22 build");
    match &first {
        Version::Date(2023, 1, 22) => {}
        _ => panic!("expected type date"),
    }
    let again = Version::parse(&first.render());
    assert!(first.same(&again));
}

#[test]
fn test_parse_takes_leftmost_end_anchored_match() {
    // only the two-digit-wide suffix can match, one position in
    match Version::parse("111.22.33") {
        Version::Sem(x, y, z) => {
            assert_eq!(x, 11);
            assert_eq!(y, 22);
            assert_eq!(z, 33);
        }
        _ => panic!("expected type semver"),
    }
}

#[test]
fn test_parse_rejects_inner_semver() {
    // the semantic pattern is anchored at the end of the string
    match Version::parse("v1.2.3 beta") {
        Version::Unknown(s) => assert_eq!(s, "v1.2.3 beta"),
        _ => panic!("expected type unknown"),
    }
}

#[test]
fn test_compare_same_variant() {
    let a = Version::Sem(1, 2, 3);
    let b = Version::Sem(1, 3, 0);
    assert!(matches!(a.compare(&b), Some(VersionOrder::Less)));
    assert!(matches!(b.compare(&a), Some(VersionOrder::Greater)));
    assert!(matches!(a.compare(&a), Some(VersionOrder::Equal)));
    let d1 = Version::Date(2023, 1, 22);
    let d2 = Version::Date(2024, 1, 1);
    assert!(matches!(d1.compare(&d2), Some(VersionOrder::Less)));
}

#[test]
fn test_compare_across_variants_undefined() {
    let a = Version::Sem(1, 2, 3);
    let d = Version::Date(2023, 1, 22);
    assert!(a.compare(&d).is_none());
    let u1 = Version::Unknown(String::from("abc"));
    let u2 = Version::Unknown(String::from("abc"));
    let u3 = Version::Unknown(String::from("xyz"));
    assert!(matches!(u1.compare(&u2), Some(VersionOrder::Equal)));
    assert!(u1.compare(&u3).is_none());
    assert!(u1.compare(&a).is_none());
}
