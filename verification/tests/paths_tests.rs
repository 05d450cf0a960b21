use pvm::paths::{join, Paths};
use pvm::version::{PythonVersion, Source};

#[test]
fn join_like_windows_path() {
    assert_eq!(join("C:\\a", "b"), "C:\\a\\b");
    assert_eq!(join("C:\\a\\", "b"), "C:\\a\\b");
    assert_eq!(join("C:", "b"), "C:b");
    assert_eq!(join("", "b"), "b");
    assert_eq!(join("C:\\a", "D:\\x"), "D:\\x");
    assert_eq!(join("C:\\a", "\\x"), "C:\\x");
    assert_eq!(join("C:\\a", "\\\\srv\\share"), "\\\\srv\\share");
}

#[test]
fn layout_under_root() {
    let p = Paths { root: "C:\\Users\\me\\.pvm".to_string() };
    assert_eq!(p.versions(), "C:\\Users\\me\\.pvm\\versions");
    assert_eq!(p.shims(), "C:\\Users\\me\\.pvm\\shims");
    assert_eq!(p.venvs(), "C:\\Users\\me\\.pvm\\venvs");
    assert_eq!(p.cache(), "C:\\Users\\me\\.pvm\\cache");
    assert_eq!(p.logs(), "C:\\Users\\me\\.pvm\\logs");
    assert_eq!(p.backup(), "C:\\Users\\me\\.pvm\\backup");
    assert_eq!(p.bin(), "C:\\Users\\me\\.pvm\\bin");
    assert_eq!(p.config_file(), "C:\\Users\\me\\.pvm\\config.toml");
    assert_eq!(p.global_version_file(), "C:\\Users\\me\\.pvm\\version");
}

#[test]
fn interpreter_paths_by_source() {
    let p = Paths { root: "C:\\pvm".to_string() };
    let sa = PythonVersion { source: Source::Standalone, major: 3, minor: 12, patch: 7, freethreaded: false };
    let org = PythonVersion { source: Source::Org, ..sa };
    assert_eq!(p.version_dir(&sa), "C:\\pvm\\versions\\cpython-3.12.7-standalone");
    assert_eq!(p.python_exe(&sa), "C:\\pvm\\versions\\cpython-3.12.7-standalone\\python\\python.exe");
    assert_eq!(p.pythonw_exe(&sa), "C:\\pvm\\versions\\cpython-3.12.7-standalone\\python\\pythonw.exe");
    assert_eq!(p.scripts_dir(&sa), "C:\\pvm\\versions\\cpython-3.12.7-standalone\\python\\Scripts");
    assert_eq!(p.python_exe(&org), "C:\\pvm\\versions\\cpython-3.12.7-org\\python.exe");
    assert_eq!(p.scripts_dir(&org), "C:\\pvm\\versions\\cpython-3.12.7-org\\Scripts");
    assert_ne!(p.version_dir(&sa), p.version_dir(&org));
}
