use pvm::error::PvmError;
use pvm::paths::Paths;
use pvm::release::ReleaseVersion;
use pvm::source_pyorg::{
    embed_url, enable_site, install_via_installer, install_via_installer_progress, installer_outcome,
    installer_url, is_pth_file, releases_from_index, uninstall_args, uninstall_outcome,
};
use pvm::version::{PythonVersion, Source};

fn org(major: u32, minor: u32, patch: u32) -> PythonVersion {
    PythonVersion { source: Source::Org, major, minor, patch, freethreaded: false }
}

#[test]
fn urls() {
    assert_eq!(
        installer_url(&org(3, 12, 7)),
        "https://www.python.org/ftp/python/3.12.7/python-3.12.7-amd64.exe"
    );
    assert_eq!(
        embed_url("3.11.9"),
        "https://www.python.org/ftp/python/3.11.9/python-3.11.9-embed-amd64.zip"
    );
}

#[test]
fn index_lists_each_3x_release_newest_first() {
    let html = r#"<a href="3.9.0/">3.9.0/</a>
<a href="3.12.7/">3.12.7/</a> <a href="2.7.18/">2.7.18/</a>
<a href="3.12.7/">again</a><a href="3.10.01/">bad</a><a href="3.13/">short</a>
<a href="3.11.10/">x</a><a href="3.12.7">no slash</a>"#;
    let r = releases_from_index(html);
    let vs: Vec<ReleaseVersion> = r.iter().map(|x| x.version).collect();
    assert_eq!(
        vs,
        vec![
            ReleaseVersion { major: 3, minor: 12, patch: 7 },
            ReleaseVersion { major: 3, minor: 11, patch: 10 },
            ReleaseVersion { major: 3, minor: 9, patch: 0 },
        ]
    );
    assert_eq!(r[0].installer_url, "https://www.python.org/ftp/python/3.12.7/python-3.12.7-amd64.exe");
    assert_eq!(r[1].embed_url, "https://www.python.org/ftp/python/3.11.10/python-3.11.10-embed-amd64.zip");
    assert!(!r[0].is_prerelease && r[0].sha256.is_none());
    assert!(releases_from_index("").is_empty());
}

#[test]
fn installer_plan() {
    let p = Paths { root: "C:\\pvm".to_string() };
    let v = org(3, 12, 7);
    let plan = install_via_installer(&v, &p);
    assert_eq!(plan.exe, "C:\\pvm\\cache\\python-3.12.7-amd64.exe");
    assert_eq!(plan.url, installer_url(&v));
    assert_eq!(plan.target, "C:\\pvm\\versions\\cpython-3.12.7-org");
    assert_eq!(plan.backup, "C:\\pvm\\versions\\.old-cpython-3.12.7-org");
    assert_eq!(plan.log, "C:\\pvm\\logs\\install-3.12.7.log");
    assert_eq!(plan.args[0], "/quiet");
    assert_eq!(plan.args[2], "TargetDir=C:\\pvm\\versions\\cpython-3.12.7-org");
    assert_eq!(plan.args[11], "Include_pip=1");
    assert_eq!(plan.args[13], "/log");
    assert_eq!(plan.args[14], plan.log);
    assert_eq!(plan.args.len(), 15);
    assert_eq!(plan.threads, None);
    assert_eq!(install_via_installer_progress(&v, &p, 8).threads, Some(8));
}

#[test]
fn installer_exit_codes() {
    assert!(installer_outcome(Some(0), "l").is_ok());
    assert!(installer_outcome(Some(3010), "l").is_ok());
    match installer_outcome(Some(1603), "C:\\log") {
        Err(PvmError::Installer { code, log }) => {
            assert_eq!(code, 1603);
            assert_eq!(log, "C:\\log");
        }
        _ => panic!("expected an installer error"),
    }
    assert!(matches!(installer_outcome(None, "l"), Err(PvmError::Installer { code: -1, .. })));
    assert_eq!(uninstall_args(), vec!["/quiet".to_string(), "/uninstall".to_string()]);
    assert!(uninstall_outcome(Some(3010)).is_ok());
    match uninstall_outcome(Some(2)) {
        Err(PvmError::Installer { code, log }) => {
            assert_eq!(code, 2);
            assert_eq!(log, "卸载器返回非成功退出码，已保留版本目录");
        }
        _ => panic!("expected an uninstaller error"),
    }
}

#[test]
fn embeddable_site() {
    assert!(is_pth_file("python312._pth"));
    assert!(!is_pth_file("python312.zip"));
    assert!(!is_pth_file("x._pth"));
    assert_eq!(
        enable_site("python312.zip\n.\n#import site\n##import site"),
        "python312.zip\n.\nimport site\n#import site"
    );
}
