use pvm::archive::{sanitize, PathPart};
use pvm::config::Config;
use pvm::gui::{
    config_info, current_info, doctor_info, find_pbs_asset, global_version, install_version,
    installed_info, mirror_current, mirror_list, parse_source, remote_info_org,
    remote_info_standalone, thread_count, venv_info,
};
use pvm::paths::Paths;
use pvm::release::ReleaseVersion;
use pvm::resolve::{Effective, ResolvedFrom};
use pvm::source_pbs::{PbsAsset, PbsFlavor};
use pvm::source_pyorg::PyOrgRelease;
use pvm::venv::{
    activation_hint, check_target, sort_by_name, unknown_venv_meta, venv_args, venv_failed,
    venv_meta, venv_path, venv_python, venv_target, VenvCreateOpts, VenvMeta,
};
use pvm::version::{PythonVersion, Source};

fn s(x: &str) -> String {
    x.to_string()
}

fn v312() -> PythonVersion {
    PythonVersion { source: Source::Standalone, major: 3, minor: 12, patch: 7, freethreaded: false }
}

#[test]
fn front_end_records() {
    let p = Paths { root: s("C:\\pvm") };
    let v = v312();
    let i = installed_info(&v, &p, Some(&v));
    assert_eq!((i.id.as_str(), i.version.as_str(), i.source.as_str()), ("cpython-3.12.7-standalone", "3.12.7", "standalone"));
    assert!(i.is_global);
    assert!(!installed_info(&v, &p, None).is_global);
    let e = Effective { version: v, from: ResolvedFrom::Local(s("x")), interpreter_dir: s("D") };
    let c = current_info(&e);
    assert_eq!((c.from.as_str(), c.dir.as_str()), ("local", "D"));
    let a = PbsAsset {
        python_version: ReleaseVersion { major: 3, minor: 12, patch: 7 },
        release_date: s("20241016"),
        freethreaded: false,
        flavor: PbsFlavor::InstallOnly,
        download_url: s("u"),
        size: 9,
        sha256: None,
        file_name: s("f"),
    };
    let ids = vec![s("cpython-3.12.7-standalone")];
    let r = remote_info_standalone(&a, &ids);
    assert!(r.installed);
    assert_eq!((r.version.as_str(), r.date.as_deref(), r.size), ("3.12.7", Some("20241016"), Some(9)));
    let o = PyOrgRelease {
        version: ReleaseVersion { major: 3, minor: 12, patch: 7 },
        is_prerelease: false,
        installer_url: s(""),
        embed_url: s(""),
        sha256: None,
    };
    let r = remote_info_org(&o, &ids);
    assert!(!r.installed && r.source == "org" && r.date.is_none());
    assert_eq!(find_pbs_asset(&v, &vec![a]).unwrap(), 0);
    assert_eq!(find_pbs_asset(&PythonVersion { patch: 8, ..v }, &vec![]).unwrap_err(), "standalone 无此版本资产: 3.12.8");
}

#[test]
fn front_end_settings() {
    let m = mirror_list();
    assert_eq!(m.len(), 6);
    assert_eq!((m[0].alias.as_str(), m[0].display.as_str()), ("tuna", "清华 TUNA"));
    let c = mirror_current(Some((s("i"), None)));
    assert_eq!(c.index_url.as_deref(), Some("i"));
    assert!(mirror_current(None).index_url.is_none());
    let cfg = Config { default_source: Some(s("org")), pip_mirror: Some(s("tuna")), disable_auto_switch: false };
    let ci = config_info(&cfg);
    assert_eq!((ci.default_source.as_str(), ci.pip_mirror.as_deref()), ("cpython", Some("tuna")));
    let p = Paths { root: s("C:\\pvm") };
    let d = doctor_info(&p, true, "C:\\PVM\\SHIMS;x", Some(&v312()), 2);
    assert!(d.shims_in_path && d.shim_ready);
    assert_eq!(d.global.as_deref(), Some("cpython-3.12.7-standalone"));
    assert_eq!(parse_source("cpython").unwrap(), Source::Org);
    assert_eq!(parse_source("x").unwrap_err(), "未知来源: x");
}

#[test]
fn front_end_requests() {
    assert_eq!(install_version("3.12.7", Source::Org, false).unwrap(), PythonVersion { source: Source::Org, ..v312() });
    assert_eq!(install_version("3.12", Source::Org, false).unwrap_err(), "版本号需为 x.y.z：3.12");
    assert_eq!(install_version("x.12.7", Source::Org, false).unwrap_err(), "非法主版本号");
    assert_eq!(install_version("3.x.7", Source::Org, false).unwrap_err(), "非法次版本号");
    assert_eq!(install_version("3.12.x", Source::Org, false).unwrap_err(), "非法补丁号");
    let v = v312();
    assert_eq!(install_version(&v.xyz(), v.source, v.freethreaded).unwrap(), v);
    assert_eq!(thread_count(0), 8);
    assert_eq!(thread_count(4), 4);
    assert_eq!(thread_count(64), 16);
    let installed = vec![v];
    assert_eq!(global_version(Some("3.12\n"), Source::Standalone, &installed), Some(v));
    assert_eq!(global_version(Some(" "), Source::Standalone, &installed), None);
    assert_eq!(global_version(Some("3.9"), Source::Standalone, &installed), None);
    assert_eq!(global_version(None, Source::Standalone, &installed), None);
}

#[test]
fn venvs() {
    let p = Paths { root: s("C:\\pvm") };
    assert_eq!(venv_path("web", &p), "C:\\pvm\\venvs\\web");
    assert_eq!(venv_python("web", &p), "C:\\pvm\\venvs\\web\\Scripts\\python.exe");
    let opts = VenvCreateOpts {
        name: "web",
        py_selector: None,
        in_project: false,
        path: None,
        clear: false,
        without_pip: false,
        system_site_packages: false,
        mirror: None,
    };
    assert_eq!(venv_target(&opts, "D:\\proj", &p), "C:\\pvm\\venvs\\web");
    let o2 = VenvCreateOpts { in_project: true, ..opts };
    assert_eq!(venv_target(&o2, "D:\\proj", &p), "D:\\proj\\.venv");
    let o3 = VenvCreateOpts { path: Some("E:\\v"), ..opts };
    assert_eq!(venv_target(&o3, "D:\\proj", &p), "E:\\v");
    assert!(check_target("T", true, true, false).is_err());
    assert!(check_target("T", true, true, true).is_ok());
    assert!(check_target("T", true, false, false).is_ok());
    assert_eq!(venv_args(true, false, true, "T"), vec!["-m", "venv", "--clear", "--system-site-packages", "T"]);
    let m = venv_meta("web", &v312(), &p, "now");
    assert_eq!(m.python_version, "cpython-3.12.7-standalone");
    assert_eq!(m.base_prefix, "C:\\pvm\\versions\\cpython-3.12.7-standalone");
    let u = unknown_venv_meta("zz");
    assert_eq!(u.python_version, "(未知)");
    let sorted = sort_by_name(vec![u, m, venv_meta("api", &v312(), &p, "t")]);
    let names: Vec<&str> = sorted.iter().map(|x| x.name.as_str()).collect();
    assert_eq!(names, vec!["api", "web", "zz"]);
    let info = venv_info(VenvMeta { name: s("web"), python_version: s("x"), source: s("y"), base_prefix: s(""), created_at: s("") }, &p);
    assert_eq!(info.path, "C:\\pvm\\venvs\\web");
    let h = activation_hint("C:\\v", "cpython-3.12.7-standalone");
    assert!(h.contains("Git Bash   : source 'C:/v/Scripts/activate'"));
    assert!(h.starts_with("已创建 venv（基于 cpython-3.12.7-standalone）：C:\\v\n"));
    match venv_failed(Some(-1)) {
        pvm::error::PvmError::Config(m) => assert_eq!(m, "python -m venv 失败（退出码 Some(-1)）"),
        _ => panic!(),
    }
}

#[test]
fn archive_members() {
    let ok = vec![PathPart::CurDir, PathPart::Normal(s("python")), PathPart::Normal(s("python.exe"))];
    assert_eq!(sanitize(&ok), Some(vec![s("python"), s("python.exe")]));
    assert_eq!(sanitize(&vec![PathPart::Normal(s("a")), PathPart::ParentDir]), None);
    assert_eq!(sanitize(&vec![PathPart::RootDir, PathPart::Normal(s("a"))]), None);
    assert_eq!(sanitize(&vec![PathPart::Prefix]), None);
    assert_eq!(sanitize(&vec![]), Some(vec![]));
}
