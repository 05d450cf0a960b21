use pvm::version::{parse_selector, PythonVersion, Source, VersionSelector};

#[test]
fn canonical_roundtrip_freethreaded() {
    let v = PythonVersion {
        source: Source::Standalone,
        major: 3,
        minor: 13,
        patch: 14,
        freethreaded: true,
    };
    assert_eq!(v.canonical(), "cpython-3.13.14t-standalone");
    assert_eq!(PythonVersion::parse_canonical(&v.canonical()).unwrap(), v);
}

#[test]
fn canonical_roundtrip_org() {
    let v = PythonVersion {
        source: Source::Org,
        major: 3,
        minor: 12,
        patch: 7,
        freethreaded: false,
    };
    assert_eq!(v.canonical(), "cpython-3.12.7-org");
    assert_eq!(PythonVersion::parse_canonical("cpython-3.12.7-org").unwrap(), v);
}

#[test]
fn selector_variants() {
    assert!(matches!(
        parse_selector("3.12").unwrap(),
        VersionSelector::PartialMinor { .. }
    ));
    assert!(matches!(
        parse_selector("3.12.7@org").unwrap(),
        VersionSelector::Exact {
            source: Some(Source::Org),
            ..
        }
    ));
    assert!(matches!(
        parse_selector("3.13.2t").unwrap(),
        VersionSelector::Exact {
            freethreaded: true,
            ..
        }
    ));
    assert!(matches!(
        parse_selector("latest@standalone").unwrap(),
        VersionSelector::Latest {
            source: Some(Source::Standalone)
        }
    ));
    assert!(matches!(parse_selector("system").unwrap(), VersionSelector::System));
    assert!(matches!(parse_selector("3").unwrap(), VersionSelector::PartialMajor { .. }));
}

#[test]
fn ord_picks_highest_patch() {
    let a = PythonVersion { source: Source::Standalone, major: 3, minor: 12, patch: 1, freethreaded: false };
    let b = PythonVersion { source: Source::Standalone, major: 3, minor: 12, patch: 9, freethreaded: false };
    assert!(b > a);
}

#[test]
fn ord_prefers_non_freethreaded_at_same_version() {
    let ft = PythonVersion { source: Source::Standalone, major: 3, minor: 13, patch: 2, freethreaded: true };
    let non = PythonVersion { source: Source::Standalone, major: 3, minor: 13, patch: 2, freethreaded: false };
    assert!(non > ft);
}

fn v(source: Source, major: u32, minor: u32, patch: u32, ft: bool) -> PythonVersion {
    PythonVersion { source, major, minor, patch, freethreaded: ft }
}

#[test]
fn xyz_and_suffixes() {
    let a = v(Source::Org, 3, 9, 18, false);
    assert_eq!(a.xyz(), "3.9.18");
    assert_eq!(Source::Org.id_suffix(), "org");
    assert_eq!(Source::Org.cli_value(), "cpython");
    assert_eq!(Source::Standalone.id_suffix(), "standalone");
    assert_eq!(Source::Standalone.cli_value(), "standalone");
}

#[test]
fn source_names_read_back() {
    for s in [Source::Org, Source::Standalone] {
        assert_eq!(Source::from_cli(s.cli_value()), Some(s));
        assert_eq!(Source::from_cli(s.id_suffix()), Some(s));
    }
    assert_eq!(Source::from_cli("pypy"), None);
}

#[test]
fn parse_canonical_errors() {
    assert!(PythonVersion::parse_canonical("pypy-3.12.1-org").is_err());
    assert!(PythonVersion::parse_canonical("cpython-3.12.1-conda").is_err());
    assert!(PythonVersion::parse_canonical("cpython-3.12-org").is_err());
    assert!(PythonVersion::parse_canonical("cpython-3.x.1-org").is_err());
    assert!(PythonVersion::parse_canonical("cpython-3.12.1org").is_err());
}

#[test]
fn distinct_versions_distinct_ids() {
    let a = v(Source::Standalone, 3, 12, 1, false);
    let b = v(Source::Org, 3, 12, 1, false);
    let c = v(Source::Standalone, 3, 12, 1, true);
    assert_ne!(a.canonical(), b.canonical());
    assert_ne!(a.canonical(), c.canonical());
}

#[test]
fn order_is_by_release_then_threading_then_source() {
    let org = v(Source::Org, 3, 12, 1, false);
    let sa = v(Source::Standalone, 3, 12, 1, false);
    assert!(sa > org);
    assert!(v(Source::Org, 3, 13, 0, true) > v(Source::Standalone, 3, 12, 9, false));
    assert!(v(Source::Org, 4, 0, 0, false) > v(Source::Org, 3, 99, 99, false));
}

#[test]
fn selector_of_canonical_id() {
    let a = v(Source::Org, 3, 11, 4, false);
    match parse_selector(&a.canonical()).unwrap() {
        VersionSelector::Canonical(b) => assert_eq!(a, b),
        _ => panic!("expected a canonical selector"),
    }
}

#[test]
fn selector_errors_and_flags() {
    assert!(parse_selector("   ").is_err());
    assert!(parse_selector("3.12@conda").is_err());
    let s = parse_selector("3.13t").unwrap();
    assert!(s.freethreaded());
    assert_eq!(s.source(), None);
    let s = parse_selector("3.12.7@standalone").unwrap();
    assert_eq!(s.source(), Some(Source::Standalone));
    assert!(parse_selector("system").unwrap().is_system());
}

#[test]
fn sort_versions_orders() {
    let list = vec![
        v(Source::Standalone, 3, 12, 9, false),
        v(Source::Org, 3, 11, 2, false),
        v(Source::Standalone, 3, 12, 9, true),
    ];
    let s = pvm::version::sort_versions(&list);
    assert_eq!(s[0], v(Source::Org, 3, 11, 2, false));
    assert_eq!(s[1], v(Source::Standalone, 3, 12, 9, true));
    assert_eq!(s[2], v(Source::Standalone, 3, 12, 9, false));
}
