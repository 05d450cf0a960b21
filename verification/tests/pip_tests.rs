use pvm::error::PvmError;
use pvm::pip::{
    lookup_mirror, mirror_setting, mirrors, pip_ini_path, pip_mirror_current, pip_mirror_reset,
    pip_mirror_set, pip_mirror_show, Scope,
};

#[test]
fn every_alias_finds_its_mirror() {
    for m in mirrors() {
        for a in &m.aliases {
            let got = lookup_mirror(a).unwrap();
            assert_eq!(got.index_url, m.index_url);
            let upper = a.to_ascii_uppercase();
            assert_eq!(lookup_mirror(&upper).unwrap().index_url, m.index_url);
        }
    }
    assert!(lookup_mirror("nope").is_none());
    assert_eq!(lookup_mirror("tuna").unwrap().trusted_host, Some("pypi.tuna.tsinghua.edu.cn"));
    assert_eq!(lookup_mirror("pypi").unwrap().trusted_host, None);
}

#[test]
fn ini_path_by_scope() {
    assert_eq!(
        pip_ini_path(Scope::Global, None, Some("C:\\Users\\me\\AppData\\Roaming")).unwrap(),
        "C:\\Users\\me\\AppData\\Roaming\\pip\\pip.ini"
    );
    assert_eq!(pip_ini_path(Scope::Venv, Some("D:\\v"), None).unwrap(), "D:\\v\\pip.ini");
    assert!(matches!(pip_ini_path(Scope::Global, None, None), Err(PvmError::Config(_))));
    assert!(matches!(pip_ini_path(Scope::Venv, None, Some("x")), Err(PvmError::Config(_))));
}

#[test]
fn mirror_setting_from_alias_or_url() {
    let (i, t) = mirror_setting("aliyun", false).unwrap();
    assert_eq!(i, "https://mirrors.aliyun.com/pypi/simple/");
    assert_eq!(t.as_deref(), Some("mirrors.aliyun.com"));
    let (i, t) = mirror_setting("aliyun", true).unwrap();
    assert_eq!(i, "https://mirrors.aliyun.com/pypi/simple/");
    assert_eq!(t, None);
    let (i, t) = mirror_setting("https://pypi.example.com/simple", false).unwrap();
    assert_eq!(i, "https://pypi.example.com/simple");
    assert_eq!(t.as_deref(), Some("pypi.example.com"));
    match mirror_setting("ftp://x.example.com/", false) {
        Err(PvmError::Config(m)) => assert_eq!(m, "镜像地址需为 http(s) 协议"),
        _ => panic!("expected a scheme error"),
    }
    match mirror_setting("not a url", false) {
        Err(PvmError::Config(m)) => assert_eq!(m, "无效镜像地址: not a url"),
        _ => panic!("expected an invalid-address error"),
    }
}

fn text_of(c: &ini::Ini) -> String {
    let mut buf: Vec<u8> = Vec::new();
    c.write_to(&mut buf).unwrap();
    String::from_utf8(buf).unwrap()
}

#[test]
fn set_then_read_back() {
    let setting = ("https://pypi.tuna.tsinghua.edu.cn/simple".to_string(), Some("pypi.tuna.tsinghua.edu.cn".to_string()));
    let existing = "[global]\ntimeout = 60\ntrusted-host = old.example.com\n[install]\nuser = true\n";
    let c = pip_mirror_set(Some(existing), &setting).unwrap();
    assert_eq!(c.get_from(Some("global"), "index-url"), Some("https://pypi.tuna.tsinghua.edu.cn/simple"));
    assert_eq!(c.get_from(Some("global"), "trusted-host"), Some("pypi.tuna.tsinghua.edu.cn"));
    assert_eq!(c.get_from(Some("global"), "timeout"), Some("60"));
    assert_eq!(c.get_from(Some("install"), "user"), Some("true"));
    let text = text_of(&c);
    let cur = pip_mirror_current(&text).unwrap().unwrap();
    assert_eq!(cur.0, setting.0);
    assert_eq!(cur.1, setting.1);

    let no_host = ("https://x.example/simple".to_string(), None);
    let c = pip_mirror_set(Some(existing), &no_host).unwrap();
    assert_eq!(c.get_from(Some("global"), "trusted-host"), None);
    let c = pip_mirror_set(None, &no_host).unwrap();
    assert_eq!(c.get_from(Some("global"), "index-url"), Some("https://x.example/simple"));
}

#[test]
fn reset_and_show() {
    let existing = "[global]\nindex-url = https://a/simple\ntrusted-host = a\ntimeout = 5\n";
    let (i, t) = pip_mirror_show(existing).unwrap();
    assert_eq!(i, "https://a/simple");
    assert_eq!(t, "a");
    let c = pip_mirror_reset(existing).unwrap();
    assert_eq!(c.get_from(Some("global"), "index-url"), None);
    assert_eq!(c.get_from(Some("global"), "trusted-host"), None);
    assert_eq!(c.get_from(Some("global"), "timeout"), Some("5"));
    let (i, t) = pip_mirror_show(&text_of(&c)).unwrap();
    assert_eq!(i, "(未设置)");
    assert_eq!(t, "(无)");
    assert!(pip_mirror_current("[global]\n").unwrap().is_none());
}

#[test]
fn unreadable_ini_is_a_config_error() {
    match pip_mirror_show("[global\nindex-url = x\n") {
        Err(PvmError::Config(m)) => assert!(m.starts_with("读取 pip.ini 失败: ")),
        _ => panic!("expected a read error"),
    }
}
