use pvm::commands::{
    check_install_args, current_line, exec_path, existing_decision, first_matching, from_label,
    global_text, global_tmp_file, init_dirs, install_plan, list_line, sel_matches_ver,
    session_commands, shims_in_path, version_of_release, InstallAction,
};
use pvm::error::PvmError;
use pvm::net::FetchStep;
use pvm::paths::Paths;
use pvm::release::{parse_release, version_gt, ReleaseVersion};
use pvm::resolve::ResolvedFrom;
use pvm::selfupdate::{
    check_fetch_step, check_update, installer_path, latest_release_url, LatestRelease, ReleaseAsset,
};
use pvm::source_pbs::PbsFlavor;
use pvm::version::{parse_selector, PythonVersion, Source};

fn s(x: &str) -> String {
    x.to_string()
}

#[test]
fn release_numbers() {
    assert_eq!(parse_release("3.12.10"), Some(ReleaseVersion { major: 3, minor: 12, patch: 10 }));
    assert_eq!(parse_release("3.012.1"), None);
    assert_eq!(parse_release("3.12"), None);
    assert_eq!(parse_release("99999999999999999999.0.0"), None);
    assert!(version_gt("0.10.0", "0.9.0"));
    assert!(!version_gt("0.9.0", "0.10.0"));
    assert!(version_gt("1.0.0", "1.0.0-rc.1"));
    assert!(version_gt("b", "a"));
    assert!(!version_gt("1.2.3", "1.2.3"));
}

fn rel(tag: &str, assets: Vec<(Option<&str>, Option<&str>)>) -> LatestRelease {
    LatestRelease {
        tag_name: Some(s(tag)),
        body: Some(s("notes")),
        html_url: None,
        assets: Some(
            assets
                .into_iter()
                .map(|(n, u)| ReleaseAsset { name: n.map(s), url: u.map(s) })
                .collect(),
        ),
    }
}

#[test]
fn update_check() {
    let r = rel(
        "vV0.10.0",
        vec![
            (Some("pvm-0.10.0.zip"), Some("u0")),
            (Some("pvm-Setup.EXE"), None),
            (Some("pvm_0.10.0_x64-install.exe"), Some("u2")),
            (Some("pvm-setup.exe"), Some("u3")),
        ],
    );
    let u = check_update("0.9.1", &r);
    assert_eq!(u.latest, "0.10.0");
    assert!(u.has_update);
    assert_eq!(u.current, "0.9.1");
    assert_eq!(u.notes, "notes");
    assert_eq!(u.html_url, "");
    assert_eq!(u.download_url.as_deref(), Some("u2"));
    assert_eq!(u.asset_name.as_deref(), Some("pvm_0.10.0_x64-install.exe"));
    let u = check_update("0.10.0", &rel("v0.10.0", vec![]));
    assert!(!u.has_update);
    assert!(u.download_url.is_none() && u.asset_name.is_none());
    let none = LatestRelease { tag_name: None, body: None, html_url: None, assets: None };
    assert!(!check_update("0.1.0", &none).has_update);
    assert_eq!(latest_release_url(), "https://api.github.com/repos/Eldon27232/pvm/releases/latest");
}

#[test]
fn update_files_and_steps() {
    let p = Paths { root: s("C:\\pvm") };
    assert_eq!(installer_path("pvm-setup.exe", &p), "C:\\pvm\\cache\\pvm-setup.exe");
    assert_eq!(installer_path("../../evil.exe", &p), "C:\\pvm\\cache\\evil.exe");
    assert_eq!(installer_path("..", &p), "C:\\pvm\\cache\\pvm-setup.exe");
    assert_eq!(check_fetch_step("504", 0), FetchStep::Retry(400));
    assert_eq!(check_fetch_step("504", 1), FetchStep::Retry(800));
    assert_eq!(check_fetch_step("504", 2), FetchStep::GiveUp);
    assert_eq!(check_fetch_step("403", 0), FetchStep::GiveUp);
}

#[test]
fn install_requests() {
    assert!(matches!(check_install_args(0, PbsFlavor::InstallOnly, false), Err(PvmError::Config(_))));
    assert!(matches!(check_install_args(1, PbsFlavor::PgoFull, false), Err(PvmError::Usage(_))));
    assert!(check_install_args(1, PbsFlavor::PgoFull, true).is_ok());
    let sel = parse_selector("3.12@org").unwrap();
    match install_plan(&sel, Some(Source::Standalone), Source::Standalone, PbsFlavor::InstallOnly, false) {
        Err(PvmError::Usage(m)) => assert_eq!(m, "选择符来源 @org 与 --source standalone 冲突"),
        _ => panic!("expected a conflict"),
    }
    assert_eq!(
        install_plan(&sel, None, Source::Standalone, PbsFlavor::InstallOnly, false).unwrap(),
        (Source::Org, false)
    );
    let sel = parse_selector("3.13t").unwrap();
    assert_eq!(
        install_plan(&sel, None, Source::Standalone, PbsFlavor::InstallOnly, false).unwrap(),
        (Source::Standalone, true)
    );
    assert!(matches!(
        install_plan(&sel, Some(Source::Org), Source::Standalone, PbsFlavor::InstallOnly, false),
        Err(PvmError::Usage(_))
    ));
    let sel = parse_selector("3.12").unwrap();
    assert!(install_plan(&sel, None, Source::Org, PbsFlavor::InstallOnlyStripped, false).is_err());
    assert!(install_plan(&parse_selector("system").unwrap(), None, Source::Org, PbsFlavor::InstallOnly, false).is_err());
}

#[test]
fn release_choice() {
    let rs = vec![
        ReleaseVersion { major: 3, minor: 13, patch: 1 },
        ReleaseVersion { major: 3, minor: 12, patch: 8 },
        ReleaseVersion { major: 3, minor: 12, patch: 7 },
    ];
    assert_eq!(first_matching(&parse_selector("3.12").unwrap(), &rs), Some(1));
    assert_eq!(first_matching(&parse_selector("3.12.7").unwrap(), &rs), Some(2));
    assert_eq!(first_matching(&parse_selector("latest").unwrap(), &rs), Some(0));
    assert_eq!(first_matching(&parse_selector("3.11").unwrap(), &rs), None);
    assert!(!sel_matches_ver(&parse_selector("system").unwrap(), &rs[0]));
    let v = version_of_release(&rs[2], Source::Org, false);
    assert_eq!(v, PythonVersion { source: Source::Org, major: 3, minor: 12, patch: 7, freethreaded: false });
}

#[test]
fn existing_versions() {
    let v = PythonVersion { source: Source::Standalone, major: 3, minor: 12, patch: 7, freethreaded: false };
    assert_eq!(existing_decision(&v, false, false, false).unwrap(), InstallAction::Install);
    assert_eq!(existing_decision(&v, true, true, false).unwrap(), InstallAction::Skip);
    assert_eq!(existing_decision(&v, true, false, true).unwrap(), InstallAction::Install);
    match existing_decision(&v, true, false, false) {
        Err(PvmError::Config(m)) => assert_eq!(m, "cpython-3.12.7-standalone 已安装（--force 重装 / --skip-existing 跳过）"),
        _ => panic!(),
    }
    let o = PythonVersion { source: Source::Org, ..v };
    match existing_decision(&o, true, false, false) {
        Err(PvmError::Config(m)) => assert_eq!(m, "cpython-3.12.7-org 已安装"),
        _ => panic!(),
    }
}

#[test]
fn command_texts() {
    let v = PythonVersion { source: Source::Org, major: 3, minor: 11, patch: 2, freethreaded: false };
    assert_eq!(from_label(&ResolvedFrom::Local(s("D:\\p\\.python-version"))), ".python-version (D:\\p\\.python-version)");
    assert_eq!(current_line(&v, &ResolvedFrom::Shell), "cpython-3.11.2-org  （来源: PVM_VERSION）");
    assert_eq!(exec_path("A", "B", "C;D"), "A;B;C;D");
    assert_eq!(global_text(Some(" cpython-3.11.2-org\r\n")).as_deref(), Some("cpython-3.11.2-org"));
    assert_eq!(global_text(Some("  ")), None);
    assert_eq!(list_line(&v, Some("cpython-3.11.2-org"), false), "* cpython-3.11.2-org");
    assert_eq!(list_line(&v, None, false), "  cpython-3.11.2-org");
    assert_eq!(list_line(&v, None, true), "cpython-3.11.2-org");
    assert!(shims_in_path("C:\\bin; c:\\PVM\\shims ;D:\\x", "C:\\pvm\\shims"));
    assert!(!shims_in_path("C:\\bin", "C:\\pvm\\shims"));
    let p = Paths { root: s("R") };
    assert_eq!(init_dirs(&p)[6], "R\\backup");
    assert_eq!(global_tmp_file(&p), "R\\version.tmp");
    let (a, b) = session_commands(&v);
    assert_eq!(a, "  PowerShell : $env:PVM_VERSION='cpython-3.11.2-org'");
    assert_eq!(b, "  cmd.exe    : set PVM_VERSION=cpython-3.11.2-org");
}
