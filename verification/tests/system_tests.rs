use pvm::system::{
    launcher_candidate, launcher_entries, list_system_pythons, path_candidates, path_pythons,
    registry_candidate, SystemPython,
};

#[test]
fn launcher_lines() {
    let text = " -V:3.12 *        C:\\Users\\me\\AppData\\Local\\Programs\\Python\\Python312\\python.exe\r\n -V:3.11.4       c:\\py\\PYTHON.EXE extra\r\nno path here\n -V:3.10          D:\\x\\python.exe\n";
    let e = launcher_entries(text);
    assert_eq!(e.len(), 3);
    assert_eq!(e[0].0, "C:\\Users\\me\\AppData\\Local\\Programs\\Python\\Python312\\python.exe");
    assert_eq!(e[0].1, "3.12");
    assert_eq!(e[1].0, "c:\\py\\PYTHON.EXE");
    assert_eq!(e[1].1, "3.11.4");
    assert_eq!(e[2].1, "3.10");
    let e = launcher_entries("C:\\a\\python.exe\n");
    assert_eq!(e[0].1, "?");
    let c = launcher_candidate(e[0].clone());
    assert_eq!(c.origin, "launcher");
}

fn sp(path: &str, origin: &str) -> SystemPython {
    SystemPython { version: "3.12".to_string(), path: path.to_string(), origin: origin.to_string() }
}

#[test]
fn listing_dedups_paths_by_case() {
    let cands = vec![
        (sp("C:\\Py\\python.exe", "registry"), true),
        (sp("D:\\gone\\python.exe", "registry"), false),
        (sp("c:\\py\\PYTHON.exe", "launcher"), true),
        (sp("E:\\p\\python.exe", "launcher"), true),
    ];
    let r = list_system_pythons(cands);
    let paths: Vec<&str> = r.iter().map(|p| p.path.as_str()).collect();
    assert_eq!(paths, vec!["C:\\Py\\python.exe", "E:\\p\\python.exe"]);
}

#[test]
fn registry_entries() {
    let r = registry_candidate("3.12", None, Some("C:\\Py312\\\\".to_string()), None, Some("3.12".to_string())).unwrap();
    assert_eq!(r.path, "C:\\Py312\\python.exe");
    assert_eq!(r.version, "3.12");
    assert_eq!(r.origin, "registry");
    let r = registry_candidate("3.11", Some("E:\\x.exe".to_string()), Some("C:\\d".to_string()), Some("3.11.9".to_string()), None).unwrap();
    assert_eq!(r.path, "E:\\x.exe");
    assert_eq!(r.version, "3.11.9");
    let r = registry_candidate("3.10-32", None, Some("C:\\d".to_string()), None, None).unwrap();
    assert_eq!(r.version, "3.10-32");
    assert!(registry_candidate("3.9", None, None, None, None).is_none());
}

#[test]
fn path_entries() {
    let c = path_candidates(" C:\\Py ;;C:\\Users\\me\\AppData\\Local\\Microsoft\\WindowsApps;c:\\py\\");
    assert_eq!(c.len(), 3);
    assert_eq!(c[0], ("C:\\Py".to_string(), "C:\\Py\\python.exe".to_string()));
    assert_eq!(c[2].1, "c:\\py\\python.exe");
    let with_files: Vec<(String, String, bool)> = c.into_iter().map(|(d, e)| (d, e, true)).collect();
    let r = path_pythons(&with_files);
    assert_eq!(r.len(), 2);
    assert!(r[0].effective && !r[0].fake);
    assert!(!r[1].effective && r[1].fake);
    assert_eq!(r[1].dir, "C:\\Users\\me\\AppData\\Local\\Microsoft\\WindowsApps");
}
