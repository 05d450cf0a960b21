use pvm::net::{normalize, proxy_choice, proxy_env_keys, retriable, system_proxy, win_proxy, ProxyChoice};
use pvm::paths::Paths;
use pvm::shim::{
    core_shims, fallback_candidates, is_exe_name, locate_real_exe, missing_template,
    no_target_message, passed_exit_code, same_dir_text,
};
use pvm::version::{PythonVersion, Source};

#[test]
fn real_exe_per_shim() {
    let p = Paths { root: "C:\\pvm".to_string() };
    let v = PythonVersion { source: Source::Standalone, major: 3, minor: 12, patch: 7, freethreaded: false };
    assert_eq!(locate_real_exe(&p, &v, "python").unwrap(), p.python_exe(&v));
    assert_eq!(locate_real_exe(&p, &v, "pythonw").unwrap(), p.pythonw_exe(&v));
    assert_eq!(
        locate_real_exe(&p, &v, "pip3").unwrap(),
        "C:\\pvm\\versions\\cpython-3.12.7-standalone\\python\\Scripts\\pip3.exe"
    );
}

#[test]
fn fallback_through_path() {
    let dirs = vec![
        "".to_string(),
        "C:\\pvm\\shims".to_string(),
        "C:\\Users\\me\\AppData\\Local\\Microsoft\\WindowsApps".to_string(),
        "C:\\Py".to_string(),
    ];
    let is_shims = vec![false, true, false, false];
    assert_eq!(fallback_candidates("pip", &dirs, &is_shims), vec!["C:\\Py\\pip.exe".to_string()]);
    assert!(same_dir_text("C:\\PVM\\shims\\", "c:\\pvm\\SHIMS"));
    assert!(!same_dir_text("C:\\a", "C:\\b"));
}

#[test]
fn shim_texts_and_codes() {
    let v = PythonVersion { source: Source::Org, major: 3, minor: 11, patch: 2, freethreaded: false };
    assert_eq!(
        no_target_message("black", Some(&v)),
        "pvm: 入口 black 不存在于 cpython-3.11.2-org，且 PATH 中也未找到系统 black"
    );
    assert!(no_target_message("python", None).starts_with("pvm: 未设置 Python 版本"));
    assert_eq!(passed_exit_code(Some(3)), 3);
    assert_eq!(passed_exit_code(None), 1);
    assert!(is_exe_name("black.EXE"));
    assert!(!is_exe_name(".exe"));
    assert!(!is_exe_name("black.py"));
    assert!(!is_exe_name("black"));
    let c = core_shims(&Paths { root: "R".to_string() });
    assert_eq!(c[1], ("R\\shims\\pythonw.exe".to_string(), "R\\bin\\pvm-shimw.exe".to_string()));
    assert_eq!(c[3].1, "R\\bin\\pvm-shim.exe");
    assert!(matches!(missing_template("t"), pvm::error::PvmError::Config(_)));
}

#[test]
fn proxy_choices() {
    assert_eq!(proxy_choice(None), ProxyChoice::Direct);
    assert_eq!(proxy_choice(Some("  ")), ProxyChoice::Direct);
    assert_eq!(proxy_choice(Some("DIRECT")), ProxyChoice::Direct);
    assert_eq!(proxy_choice(Some(" System ")), ProxyChoice::System);
    assert_eq!(proxy_choice(Some("127.0.0.1:7890")), ProxyChoice::Custom("http://127.0.0.1:7890".to_string()));
    assert_eq!(proxy_choice(Some("socks5://h:1")), ProxyChoice::Custom("socks5://h:1".to_string()));
    assert_eq!(normalize("h:1"), "http://h:1");
    assert_eq!(proxy_env_keys()[0], "HTTPS_PROXY");
}

#[test]
fn system_proxy_order() {
    let env = vec![None, Some("  ".to_string()), Some(" h:2 ".to_string()), Some("h:3".to_string())];
    assert_eq!(system_proxy(&env, Some("http://w:1".to_string())).as_deref(), Some("http://h:2"));
    assert_eq!(system_proxy(&vec![None, None], Some("http://w:1".to_string())).as_deref(), Some("http://w:1"));
    assert_eq!(win_proxy(0, "h:1"), None);
    assert_eq!(win_proxy(1, "  "), None);
    assert_eq!(win_proxy(1, "h:1").as_deref(), Some("http://h:1"));
    assert_eq!(win_proxy(1, "ftp=f:1;http=a:1;https=b:2").as_deref(), Some("http://a:1"));
    assert_eq!(win_proxy(1, "ftp=f:1;socks=s:1").as_deref(), Some("http://ftp=f:1;socks=s:1"));
    assert!(retriable("HTTP 504 Gateway"));
    assert!(retriable("operation TIMED OUT"));
    assert!(!retriable("404"));
}
