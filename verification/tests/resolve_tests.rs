use pvm::error::PvmError;
use pvm::paths::Paths;
use pvm::resolve::{
    installed_candidates, is_installed, list_installed, resolve_effective, resolve_installed,
    ResolvedFrom,
};
use pvm::version::{parse_selector, PythonVersion, Source};

fn v(source: Source, major: u32, minor: u32, patch: u32, ft: bool) -> PythonVersion {
    PythonVersion { source, major, minor, patch, freethreaded: ft }
}

fn installed() -> Vec<PythonVersion> {
    vec![
        v(Source::Standalone, 3, 12, 1, false),
        v(Source::Standalone, 3, 12, 9, false),
        v(Source::Standalone, 3, 12, 9, true),
        v(Source::Org, 3, 11, 4, false),
        v(Source::Standalone, 3, 11, 4, false),
    ]
}

#[test]
fn partial_minor_takes_highest_patch() {
    let sel = parse_selector("3.12").unwrap();
    let r = resolve_installed(&sel, Source::Standalone, &installed()).unwrap();
    assert_eq!(r, v(Source::Standalone, 3, 12, 9, false));
}

#[test]
fn freethreaded_is_opt_in() {
    let sel = parse_selector("3.12t").unwrap();
    let r = resolve_installed(&sel, Source::Standalone, &installed()).unwrap();
    assert_eq!(r, v(Source::Standalone, 3, 12, 9, true));
}

#[test]
fn two_sources_prefer_default() {
    let sel = parse_selector("3.11").unwrap();
    let r = resolve_installed(&sel, Source::Org, &installed()).unwrap();
    assert_eq!(r, v(Source::Org, 3, 11, 4, false));
    let r = resolve_installed(&sel, Source::Standalone, &installed()).unwrap();
    assert_eq!(r, v(Source::Standalone, 3, 11, 4, false));
}

#[test]
fn ambiguous_without_default_among_candidates() {
    let list = vec![v(Source::Org, 3, 10, 1, false), v(Source::Org, 3, 10, 1, false)];
    let sel = parse_selector("3.10").unwrap();
    match resolve_installed(&sel, Source::Standalone, &list) {
        Err(PvmError::Ambiguous(m)) => {
            assert_eq!(m, "cpython-3.10.1-org, cpython-3.10.1-org")
        }
        _ => panic!("expected Ambiguous"),
    }
}

#[test]
fn not_installed_and_system() {
    let sel = parse_selector("3.8").unwrap();
    match resolve_installed(&sel, Source::Standalone, &installed()) {
        Err(PvmError::NotInstalled(m)) => assert_eq!(m, "3.8"),
        _ => panic!("expected NotInstalled"),
    }
    let sel = parse_selector("system").unwrap();
    assert!(matches!(
        resolve_installed(&sel, Source::Standalone, &installed()),
        Err(PvmError::Usage(_))
    ));
}

#[test]
fn effective_priority_shell_local_global() {
    let p = Paths { root: "C:\\pvm".to_string() };
    let list = installed();
    let local = Some(("D:\\proj\\.python-version".to_string(), "3.11\r\n".to_string()));
    let e = resolve_effective(Some("3.12"), false, local.clone(), Some("3.11"), Source::Standalone, &list, &p)
        .unwrap();
    assert!(matches!(e.from, ResolvedFrom::Shell));
    assert_eq!(e.version, v(Source::Standalone, 3, 12, 9, false));
    assert_eq!(e.interpreter_dir, "C:\\pvm\\versions\\cpython-3.12.9-standalone");

    let e = resolve_effective(Some("  "), false, local.clone(), Some("3.12"), Source::Standalone, &list, &p)
        .unwrap();
    match e.from {
        ResolvedFrom::Local(f) => assert_eq!(f, "D:\\proj\\.python-version"),
        _ => panic!("expected local"),
    }
    assert_eq!(e.version, v(Source::Standalone, 3, 11, 4, false));

    let e = resolve_effective(None, true, local, Some("3.12.1\n"), Source::Standalone, &list, &p).unwrap();
    assert!(matches!(e.from, ResolvedFrom::Global));
    assert_eq!(e.version, v(Source::Standalone, 3, 12, 1, false));

    assert!(matches!(
        resolve_effective(None, false, None, Some(" "), Source::Standalone, &list, &p),
        Err(PvmError::NoVersionConfigured)
    ));
}

#[test]
fn installed_listing() {
    let names = vec![
        "cpython-3.12.9-standalone".to_string(),
        ".tmp-cpython-3.13.0-standalone".to_string(),
        "cpython-3.11.4-org".to_string(),
    ];
    let c = installed_candidates(&names);
    assert_eq!(c, vec![v(Source::Standalone, 3, 12, 9, false), v(Source::Org, 3, 11, 4, false)]);
    let l = list_installed(&c);
    assert_eq!(l, vec![v(Source::Org, 3, 11, 4, false), v(Source::Standalone, 3, 12, 9, false)]);
    assert!(is_installed(&v(Source::Org, 3, 11, 4, false), &l));
    assert!(!is_installed(&v(Source::Standalone, 3, 11, 4, false), &l));
}
