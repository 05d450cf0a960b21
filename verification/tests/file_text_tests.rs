use pvm::commands::global_text;
use pvm::gui::global_version;
use pvm::paths::Paths;
use pvm::pip::{pip_mirror_current, pip_mirror_reset, pip_mirror_set, pip_mirror_show};
use pvm::pkg::{freeze, install, pip_env};
use pvm::resolve::{resolve_effective, ResolvedFrom};
use pvm::version::{PythonVersion, Source};

fn v3127() -> PythonVersion {
    PythonVersion { source: Source::Standalone, major: 3, minor: 12, patch: 7, freethreaded: false }
}

#[test]
fn global_file_with_bom_and_crlf_resolves() {
    let p = Paths { root: "C:\\pvm".to_string() };
    let list = vec![v3127()];
    let e = resolve_effective(None, false, None, Some("\u{FEFF}3.12.7\r\n"), Source::Standalone, &list, &p)
        .unwrap();
    assert_eq!(e.version, v3127());
    assert!(matches!(e.from, ResolvedFrom::Global));
}

#[test]
fn local_file_with_bom_resolves() {
    let p = Paths { root: "C:\\pvm".to_string() };
    let list = vec![v3127()];
    let local = Some(("D:\\proj\\.python-version".to_string(), "\u{FEFF}3.12\r\n".to_string()));
    let e = resolve_effective(None, false, local, None, Source::Standalone, &list, &p).unwrap();
    assert_eq!(e.version, v3127());
}

#[test]
fn global_text_drops_bom() {
    assert_eq!(global_text(Some("\u{FEFF}cpython-3.12.7-standalone\r\n")), Some("cpython-3.12.7-standalone".to_string()));
    assert_eq!(global_text(Some("\u{FEFF}\r\n")), None);
    assert_eq!(global_version(Some("\u{FEFF}3.12.7"), Source::Standalone, &vec![v3127()]), Some(v3127()));
}

#[test]
fn pip_runs_in_utf8() {
    let want = vec![
        ("PYTHONUTF8".to_string(), "1".to_string()),
        ("PYTHONIOENCODING".to_string(), "utf-8".to_string()),
    ];
    assert_eq!(pip_env(), want);
    assert_eq!(freeze("py").env, want);
    assert_eq!(install("py", "x", None, false).env, want);
}

#[test]
fn unreadable_pip_ini_is_refused_and_readable_one_edited() {
    let setting = ("https://m/simple".to_string(), Some("m".to_string()));
    assert!(pip_mirror_set(Some("[global"), &setting).is_err());
    assert!(pip_mirror_reset("[global").is_err());
    assert!(pip_mirror_current("[global").is_err());
    assert!(pip_mirror_show("[global").is_err());
    assert!(pip_mirror_set(Some("[global]\nindex-url = https://old/simple\n"), &setting).is_ok());
    assert!(pip_mirror_set(None, &setting).is_ok());
}
