use pvm::error::PvmError;
use pvm::pkg::{
    capture_result, freeze, install, install_requirements, list_outdated, list_packages,
    not_started, outdated_from, packages_from, query_result, show, uninstall,
};
use pvm::snapshot::{
    check_name, freeze_packages, new_snapshot, not_found, requirements_file, requirements_text,
    sanitize, snapshot_file, sort_newest_first, Snapshot,
};

#[test]
fn pip_command_lines() {
    let c = install("py.exe", "requests==2.32.0", Some("https://m/simple"), true);
    assert_eq!(c.program, "py.exe");
    assert_eq!(c.args, vec!["-m", "pip", "install", "--upgrade", "-i", "https://m/simple", "requests==2.32.0"]);
    assert_eq!(c.label, "pip install");
    assert_eq!(install("p", "x", None, false).args, vec!["-m", "pip", "install", "x"]);
    assert_eq!(uninstall("p", "x").args, vec!["-m", "pip", "uninstall", "-y", "x"]);
    assert_eq!(show("p", "x").args, vec!["-m", "pip", "show", "x"]);
    assert_eq!(freeze("p").args, vec!["-m", "pip", "freeze"]);
    assert_eq!(install_requirements("p", "r.txt", Some("u")).args, vec!["-m", "pip", "install", "-r", "r.txt", "-i", "u"]);
    assert_eq!(list_packages("p").args, vec!["-m", "pip", "list", "--format=json", "--disable-pip-version-check"]);
    assert_eq!(list_outdated("p").args[3], "--outdated");
}

#[test]
fn pip_outcomes() {
    assert_eq!(capture_result("pip install", true, "  done \n", "warn").unwrap(), "done");
    assert_eq!(capture_result("pip install", true, " \n", " warn ").unwrap(), "warn");
    match capture_result("pip uninstall", false, "x", " boom \n") {
        Err(PvmError::Config(m)) => assert_eq!(m, "pip uninstall 失败:\nboom"),
        _ => panic!("expected a failure"),
    }
    assert_eq!(query_result("pip show", true, "Name: x\n", "").unwrap(), "Name: x\n");
    match query_result("pip freeze", false, "", "bad\n") {
        Err(PvmError::Config(m)) => assert_eq!(m, "pip freeze 失败: bad\n"),
        _ => panic!("expected a failure"),
    }
    match not_started("pip", "not found") {
        PvmError::Config(m) => assert_eq!(m, "运行 pip 失败: not found"),
        _ => panic!(),
    }
}

#[test]
fn package_entries() {
    let p = packages_from(vec![
        (Some("a".to_string()), Some("1".to_string())),
        (Some("b".to_string()), None),
        (None, Some("2".to_string())),
    ]);
    assert_eq!(p.len(), 1);
    assert_eq!((p[0].name.as_str(), p[0].version.as_str()), ("a", "1"));
    let o = outdated_from(vec![(Some("a".to_string()), Some("1".to_string()), Some("2".to_string()))]);
    assert_eq!(o[0].latest_version, "2");
}

#[test]
fn snapshot_names_and_files() {
    assert_eq!(sanitize("my env/1.0"), "my_env_1_0");
    assert_eq!(sanitize("环境-a_b"), "环境-a_b");
    assert_eq!(sanitize(&sanitize("x y")), sanitize("x y"));
    assert_eq!(snapshot_file("S", "a b"), "S\\a_b.json");
    assert_eq!(requirements_file("W", "a b"), "W\\.snap-a_b.txt");
    assert!(check_name("  ").is_err());
    assert!(check_name("x").is_ok());
    assert!(matches!(not_found("x"), PvmError::Config(_)));
}

#[test]
fn freeze_lines() {
    let f = "# comment\nrequests==2.32.0\r\n\n  numpy==2.0  \n-e git+https://x#egg=y\nflask==3.0";
    assert_eq!(freeze_packages(f), vec!["requests==2.32.0", "numpy==2.0", "flask==3.0"]);
    let s = new_snapshot("n", "py312", "2025-01-01T00:00:00+08:00", f);
    assert_eq!(s.packages.len(), 3);
    assert_eq!(requirements_text(&s.packages), "requests==2.32.0\nnumpy==2.0\nflask==3.0");
    assert_eq!(requirements_text(&vec![]), "");
}

fn snap(name: &str, at: &str) -> Snapshot {
    Snapshot { name: name.to_string(), py_label: String::new(), created_at: at.to_string(), packages: vec![] }
}

#[test]
fn snapshots_newest_first_stable() {
    let v = vec![snap("a", "2024-01-01"), snap("b", "2025-01-01"), snap("c", "2024-01-01"), snap("d", "2025-06-01")];
    let r = sort_newest_first(v);
    let names: Vec<&str> = r.iter().map(|s| s.name.as_str()).collect();
    assert_eq!(names, vec!["d", "b", "a", "c"]);
}
