//! pip mirrors: the built-in table, looking up an alias, where `pip.ini`
//! lives, and what a mirror setting writes into its `[global]` section.
use crate::error::{rv, ErrView, PvmError};
use crate::paths::{join, join_of};
use crate::text::{cat, lowered_equals, lowered_equals_str, str_eq};
use vstd::prelude::*;

verus! {

/// One pip mirror.
pub struct Mirror {
    /// Names that select it; the first is the one that listings show.
    pub aliases: Vec<&'static str>,
    pub display: &'static str,
    pub index_url: &'static str,
    /// Host written as `trusted-host`, if any.
    pub trusted_host: Option<&'static str>,
}

/// A mirror as plain text: aliases, display name, index URL, trusted host.
pub type MirrorView = (Seq<Seq<char>>, Seq<char>, Seq<char>, Option<Seq<char>>);

pub open spec fn opt_static(o: Option<&'static str>) -> Option<Seq<char>> {
    match o {
        Some(s) => Some(s@),
        None => None,
    }
}

pub open spec fn mirror_view(m: Mirror) -> MirrorView {
    (m.aliases@.map_values(|a: &'static str| a@), m.display@, m.index_url@, opt_static(m.trusted_host))
}

/// The built-in mirrors, in the order that lookups try them.
pub open spec fn mirror_table() -> Seq<MirrorView> {
    seq![
        (seq!["tuna"@, "tsinghua"@], "清华 TUNA"@, "https://pypi.tuna.tsinghua.edu.cn/simple"@, Some(
            "pypi.tuna.tsinghua.edu.cn"@,
        )),
        (seq!["aliyun"@, "ali"@], "阿里云"@, "https://mirrors.aliyun.com/pypi/simple/"@, Some(
            "mirrors.aliyun.com"@,
        )),
        (seq!["ustc"@], "中科大"@, "https://mirrors.ustc.edu.cn/pypi/simple"@, Some(
            "mirrors.ustc.edu.cn"@,
        )),
        (seq!["tencent"@, "qcloud"@], "腾讯云"@, "https://mirrors.cloud.tencent.com/pypi/simple"@, Some(
            "mirrors.cloud.tencent.com"@,
        )),
        (seq!["huawei"@, "hwcloud"@], "华为云"@, "https://repo.huaweicloud.com/repository/pypi/simple"@, Some(
            "repo.huaweicloud.com"@,
        )),
        (seq!["pypi"@, "official"@], "官方源"@, "https://pypi.org/simple"@, None),
    ]
}

fn mirror(
    aliases: Vec<&'static str>,
    display: &'static str,
    index_url: &'static str,
    trusted_host: Option<&'static str>,
) -> (r: Mirror)
    ensures
        r.aliases == aliases,
        r.display == display,
        r.index_url == index_url,
        r.trusted_host == trusted_host,
{
    Mirror { aliases, display, index_url, trusted_host }
}

/// The built-in mirror table.
pub fn mirrors() -> (r: Vec<Mirror>)
    ensures
        r@.map_values(|m: Mirror| mirror_view(m)) == mirror_table(),
{
    let ghost t = mirror_table();
    let mut v: Vec<Mirror> = Vec::new();
    let a0 = vec!["tuna", "tsinghua"];
    let a1 = vec!["aliyun", "ali"];
    let a2 = vec!["ustc"];
    let a3 = vec!["tencent", "qcloud"];
    let a4 = vec!["huawei", "hwcloud"];
    let a5 = vec!["pypi", "official"];
    assert(a0@.map_values(|a: &'static str| a@) =~= t[0].0);
    assert(a1@.map_values(|a: &'static str| a@) =~= t[1].0);
    assert(a2@.map_values(|a: &'static str| a@) =~= t[2].0);
    assert(a3@.map_values(|a: &'static str| a@) =~= t[3].0);
    assert(a4@.map_values(|a: &'static str| a@) =~= t[4].0);
    assert(a5@.map_values(|a: &'static str| a@) =~= t[5].0);
    v.push(
        mirror(
            a0,
            "清华 TUNA",
            "https://pypi.tuna.tsinghua.edu.cn/simple",
            Some("pypi.tuna.tsinghua.edu.cn"),
        ),
    );
    v.push(
        mirror(
            a1,
            "阿里云",
            "https://mirrors.aliyun.com/pypi/simple/",
            Some("mirrors.aliyun.com"),
        ),
    );
    v.push(
        mirror(a2, "中科大", "https://mirrors.ustc.edu.cn/pypi/simple", Some("mirrors.ustc.edu.cn")),
    );
    v.push(
        mirror(
            a3,
            "腾讯云",
            "https://mirrors.cloud.tencent.com/pypi/simple",
            Some("mirrors.cloud.tencent.com"),
        ),
    );
    v.push(
        mirror(
            a4,
            "华为云",
            "https://repo.huaweicloud.com/repository/pypi/simple",
            Some("repo.huaweicloud.com"),
        ),
    );
    v.push(mirror(a5, "官方源", "https://pypi.org/simple", None));
    assert forall|i: int| 0 <= i < 6 implies mirror_view(#[trigger] v@[i]) == t[i] by {}
    assert(v@.map_values(|m: Mirror| mirror_view(m)) =~= t);
    v
}

/// `key.to_ascii_lowercase()` is one of the aliases.
pub open spec fn alias_hit(aliases: Seq<Seq<char>>, key: Seq<char>) -> bool {
    exists|j: int| 0 <= j < aliases.len() && lowered_equals(key, #[trigger] aliases[j])
}

/// Index of the first mirror from `i` on that `key` selects.
pub open spec fn lookup_from(table: Seq<MirrorView>, key: Seq<char>, i: int) -> Option<int>
    decreases table.len() - i,
{
    if i < 0 || i >= table.len() {
        None
    } else if alias_hit(table[i].0, key) {
        Some(i)
    } else {
        lookup_from(table, key, i + 1)
    }
}

/// The mirror that a name selects, if any: the first whose aliases include
/// the name in ASCII lower case.
pub open spec fn lookup_of(key: Seq<char>) -> Option<MirrorView> {
    match lookup_from(mirror_table(), key, 0) {
        Some(i) => Some(mirror_table()[i]),
        None => None,
    }
}

fn has_alias(aliases: &Vec<&'static str>, key: &str) -> (r: bool)
    ensures
        r == alias_hit(aliases@.map_values(|a: &'static str| a@), key@),
{
    let n = aliases.len();
    let ghost av = aliases@.map_values(|a: &'static str| a@);
    let mut j: usize = 0;
    while j < n
        invariant
            n == aliases@.len(),
            j <= n,
            av == aliases@.map_values(|a: &'static str| a@),
            forall|k: int| 0 <= k < j ==> !lowered_equals(key@, #[trigger] av[k]),
        decreases n - j,
    {
        if lowered_equals_str(key, aliases[j]) {
            assert(av[j as int] == aliases@[j as int]@);
            return true;
        }
        j = j + 1;
    }
    false
}

pub fn lookup_mirror(key: &str) -> (r: Option<Mirror>)
    ensures
        match r {
            Some(m) => lookup_of(key@) == Some(mirror_view(m)),
            None => lookup_of(key@) is None,
        },
{
    let table = mirrors();
    let ghost t = mirror_table();
    let n = table.len();
    let mut i: usize = 0;
    while i < n
        invariant
            n == table@.len(),
            table@.map_values(|m: Mirror| mirror_view(m)) == t,
            t == mirror_table(),
            i <= n,
            lookup_from(t, key@, 0) == lookup_from(t, key@, i as int),
        decreases n - i,
    {
        assert(t[i as int] == mirror_view(table@[i as int]));
        if has_alias(&table[i].aliases, key) {
            let mut table = table;
            let m = table.swap_remove(i);
            return Some(m);
        }
        i = i + 1;
    }
    None
}

/// Whether a setting applies to the user's pip or to one virtual
/// environment.
#[derive(Clone, Copy)]
pub enum Scope {
    Global,
    Venv,
}

pub open spec fn opt_ref(o: Option<&str>) -> Option<Seq<char>> {
    match o {
        Some(s) => Some(s@),
        None => None,
    }
}

/// Where `pip.ini` lives: `%APPDATA%\pip\pip.ini` for the user, `<venv>\pip.ini`
/// for a virtual environment.
pub open spec fn pip_ini_path_of(
    scope: Scope,
    venv: Option<Seq<char>>,
    appdata: Option<Seq<char>>,
) -> Result<Seq<char>, ErrView> {
    match scope {
        Scope::Global => match appdata {
            None => Err(ErrView::Config("未找到 APPDATA 环境变量"@)),
            Some(a) => Ok(join_of(join_of(a, "pip"@), "pip.ini"@)),
        },
        Scope::Venv => match venv {
            None => Err(ErrView::Config("venv 作用域需指定 venv 路径"@)),
            Some(v) => Ok(join_of(v, "pip.ini"@)),
        },
    }
}

/// The `pip.ini` of a scope, given the value of `APPDATA` (if set).
pub fn pip_ini_path(scope: Scope, venv: Option<&str>, appdata: Option<&str>) -> (r: Result<
    String,
    PvmError,
>)
    ensures
        match r {
            Ok(p) => pip_ini_path_of(scope, opt_ref(venv), opt_ref(appdata)) == Ok::<
                Seq<char>,
                ErrView,
            >(p@),
            Err(e) => pip_ini_path_of(scope, opt_ref(venv), opt_ref(appdata)) == Err::<
                Seq<char>,
                ErrView,
            >(e@),
        },
{
    match scope {
        Scope::Global => match appdata {
            None => Err(PvmError::Config(String::from_str("未找到 APPDATA 环境变量"))),
            Some(a) => {
                let d = join(a, "pip");
                Ok(join(d.as_str(), "pip.ini"))
            },
        },
        Scope::Venv => match venv {
            None => Err(PvmError::Config(String::from_str("venv 作用域需指定 venv 路径"))),
            Some(v) => Ok(join(v, "pip.ini")),
        },
    }
}

/// What `url::Url::parse` gives for a text: its scheme and host, or nothing
/// when the text is not a URL.
pub uninterp spec fn url_parts_of(s: Seq<char>) -> Option<(Seq<char>, Option<Seq<char>>)>;

/// Calls `url::Url::parse` and reads `scheme()` and `host_str()` from the
/// result. The contract names the result and states nothing of it.
#[verifier::external_body]
fn parse_url(s: &str) -> (r: Option<(String, Option<String>)>)
    ensures
        match (r, url_parts_of(s@)) {
            (None, None) => true,
            (Some((a, h)), Some((sa, sh))) => a@ == sa && match (h, sh) {
                (None, None) => true,
                (Some(x), Some(y)) => x@ == y,
                _ => false,
            },
            _ => false,
        },
{
    match url::Url::parse(s) {
        Ok(u) => Some((u.scheme().to_string(), u.host_str().map(|h| h.to_string()))),
        Err(_) => None,
    }
}

/// What a mirror setting writes: the `index-url`, and the `trusted-host` (or
/// `None` when `trusted-host` is to be removed). A built-in alias gives its
/// table entry; anything else must be an http(s) URL (`parsed` is its scheme
/// and host as the URL parser reads them, or `None` when it is no URL), whose
/// host becomes the trusted host.
pub open spec fn mirror_setting_with_of(
    name_or_url: Seq<char>,
    no_trusted: bool,
    parsed: Option<(Seq<char>, Option<Seq<char>>)>,
) -> Result<(Seq<char>, Option<Seq<char>>), ErrView> {
    let chosen: Result<(Seq<char>, Option<Seq<char>>), ErrView> = match lookup_of(name_or_url) {
        Some(m) => Ok((m.2, m.3)),
        None => match parsed {
            None => Err(ErrView::Config("无效镜像地址: "@ + name_or_url)),
            Some((scheme, host)) => if scheme != "http"@ && scheme != "https"@ {
                Err(ErrView::Config("镜像地址需为 http(s) 协议"@))
            } else {
                Ok((name_or_url, host))
            },
        },
    };
    match chosen {
        Err(e) => Err(e),
        Ok((idx, trusted)) => Ok((idx, if no_trusted {
            None
        } else {
            trusted
        })),
    }
}

/// A refusal with a `Config` error.
pub open spec fn refused_by_config(r: Result<(Seq<char>, Option<Seq<char>>), ErrView>) -> bool {
    match r {
        Err(ErrView::Config(_)) => true,
        _ => false,
    }
}

/// How a mirror setting is chosen. An alias of the built-in list gives that
/// mirror's index and trusted host. Any other text is taken as a URL: with
/// scheme `http` or `https` alike it becomes the index itself, its host the
/// trusted host; any other scheme, or text that is no URL, is refused with a
/// `Config` error. `no_trusted` drops the trusted host and nothing else.
pub proof fn lemma_mirror_setting_meaning(
    name_or_url: Seq<char>,
    no_trusted: bool,
    parsed: Option<(Seq<char>, Option<Seq<char>>)>,
)
    ensures
        lookup_of(name_or_url) matches Some(m) ==> mirror_setting_with_of(
            name_or_url,
            no_trusted,
            parsed,
        ) == Ok::<(Seq<char>, Option<Seq<char>>), ErrView>(
            (m.2, if no_trusted {
                None
            } else {
                m.3
            }),
        ),
        lookup_of(name_or_url) is None ==> match parsed {
            None => refused_by_config(mirror_setting_with_of(name_or_url, no_trusted, parsed)),
            Some((sc, h)) => if sc == "http"@ || sc == "https"@ {
                mirror_setting_with_of(name_or_url, no_trusted, parsed) == Ok::<
                    (Seq<char>, Option<Seq<char>>),
                    ErrView,
                >((name_or_url, if no_trusted {
                    None
                } else {
                    h
                }))
            } else {
                refused_by_config(mirror_setting_with_of(name_or_url, no_trusted, parsed))
            },
        },
{
}

/// Plain `http` mirrors are accepted exactly as `https` ones are.
pub proof fn lemma_http_like_https(name_or_url: Seq<char>, no_trusted: bool, host: Option<Seq<char>>)
    requires
        lookup_of(name_or_url) is None,
    ensures
        mirror_setting_with_of(name_or_url, no_trusted, Some(("http"@, host)))
            == mirror_setting_with_of(name_or_url, no_trusted, Some(("https"@, host))),
        mirror_setting_with_of(name_or_url, no_trusted, Some(("http"@, host))) is Ok,
{
    lemma_mirror_setting_meaning(name_or_url, no_trusted, Some(("http"@, host)));
    lemma_mirror_setting_meaning(name_or_url, no_trusted, Some(("https"@, host)));
}

pub open spec fn mirror_setting_of(name_or_url: Seq<char>, no_trusted: bool) -> Result<
    (Seq<char>, Option<Seq<char>>),
    ErrView,
> {
    mirror_setting_with_of(name_or_url, no_trusted, url_parts_of(name_or_url))
}

pub open spec fn opt_string(o: Option<String>) -> Option<Seq<char>> {
    match o {
        Some(h) => Some(h@),
        None => None,
    }
}

pub open spec fn setting_result(r: Result<(String, Option<String>), PvmError>) -> Result<
    (Seq<char>, Option<Seq<char>>),
    ErrView,
> {
    match r {
        Ok((idx, th)) => Ok((idx@, opt_string(th))),
        Err(e) => Err(e@),
    }
}

/// The mirror setting for a name or URL, given how the URL parser reads it.
pub fn mirror_setting_with(
    name_or_url: &str,
    no_trusted: bool,
    parsed: Option<(String, Option<String>)>,
) -> (r: Result<(String, Option<String>), PvmError>)
    ensures
        setting_result(r) == mirror_setting_with_of(
            name_or_url@,
            no_trusted,
            match parsed {
                Some((a, h)) => Some((a@, opt_string(h))),
                None => None,
            },
        ),
{
    let (index_url, trusted): (String, Option<String>) = match lookup_mirror(name_or_url) {
        Some(m) => (
            String::from_str(m.index_url),
            match m.trusted_host {
                Some(h) => Some(String::from_str(h)),
                None => None,
            },
        ),
        None => match parsed {
            None => {
                return Err(PvmError::Config(cat("无效镜像地址: ", name_or_url)));
            },
            Some((scheme, host)) => {
                if !str_eq(scheme.as_str(), "http") && !str_eq(scheme.as_str(), "https") {
                    return Err(PvmError::Config(String::from_str("镜像地址需为 http(s) 协议")));
                }
                (String::from_str(name_or_url), host)
            },
        },
    };
    if no_trusted {
        Ok((index_url, None))
    } else {
        Ok((index_url, trusted))
    }
}

/// The mirror setting for a name or URL.
pub fn mirror_setting(name_or_url: &str, no_trusted: bool) -> (r: Result<
    (String, Option<String>),
    PvmError,
>)
    ensures
        setting_result(r) == mirror_setting_of(name_or_url@, no_trusted),
{
    let parsed = parse_url(name_or_url);
    mirror_setting_with(name_or_url, no_trusted, parsed)
}


// ------------------------------------------------------------------ pip.ini

/// `ini::Ini`, a parsed configuration file.
#[verifier::external_type_specification]
#[verifier::external_body]
pub struct ExIni(ini::Ini);

/// What a configuration holds: the first value of `key` in the first
/// section named `section`, if any.
pub uninterp spec fn ini_get_of(conf: ini::Ini, section: Seq<char>, key: Seq<char>) -> Option<
    Seq<char>,
>;

/// What the configuration read from `text` by `ini::Ini::load_from_str`
/// holds, where it reads.
pub uninterp spec fn ini_text_get_of(text: Seq<char>, section: Seq<char>, key: Seq<char>) -> Option<
    Seq<char>,
>;

/// Whether `ini::Ini::load_from_str` reads `text` (with its default
/// parse options); this depends on the text alone.
pub uninterp spec fn ini_parses_of(text: Seq<char>) -> bool;

/// Calls `ini::Ini::load_from_str`. Whether the text parses, and what the
/// parsed file holds, are named; the parser's message is not stated.
#[verifier::external_body]
fn ini_parse(text: &str) -> (r: Result<ini::Ini, String>)
    ensures
        r is Ok <==> ini_parses_of(text@),
        r matches Ok(c) ==> forall|s: Seq<char>, k: Seq<char>|
            #[trigger] ini_get_of(c, s, k) == ini_text_get_of(text@, s, k),
{
    match ini::Ini::load_from_str(text) {
        Ok(c) => Ok(c),
        Err(e) => Err(e.to_string()),
    }
}

/// Calls `ini::Ini::new`: an empty configuration, with no named section.
#[verifier::external_body]
fn ini_new() -> (r: ini::Ini)
    ensures
        forall|s: Seq<char>, k: Seq<char>| #[trigger] ini_get_of(r, s, k) is None,
{
    ini::Ini::new()
}

/// Calls `with_section(Some(section)).set(key, value)`: the key now holds
/// the value (its other values in that section are dropped); nothing else
/// changes.
#[verifier::external_body]
fn ini_set(conf: &mut ini::Ini, section: &str, key: &str, value: &str)
    ensures
        ini_get_of(*final(conf), section@, key@) == Some(value@),
        forall|s: Seq<char>, k: Seq<char>|
            !(s == section@ && k == key@) ==> #[trigger] ini_get_of(*final(conf), s, k)
                == ini_get_of(*old(conf), s, k),
{
    conf.with_section(Some(section)).set(key, value);
}

/// Calls `section_mut(Some(section))` and `remove(key)` on it: every value
/// of the key in that section goes; nothing else changes.
#[verifier::external_body]
fn ini_remove(conf: &mut ini::Ini, section: &str, key: &str)
    ensures
        ini_get_of(*final(conf), section@, key@) is None,
        forall|s: Seq<char>, k: Seq<char>|
            !(s == section@ && k == key@) ==> #[trigger] ini_get_of(*final(conf), s, k)
                == ini_get_of(*old(conf), s, k),
{
    if let Some(sec) = conf.section_mut(Some(section)) {
        sec.remove(key);
    }
}

/// Calls `get_from(Some(section), key)`.
#[verifier::external_body]
fn ini_get(conf: &ini::Ini, section: &str, key: &str) -> (r: Option<String>)
    ensures
        opt_string(r) == ini_get_of(*conf, section@, key@),
{
    conf.get_from(Some(section), key).map(|v| v.to_string())
}

/// The configuration to start from: the file's, where there is one (a file
/// that does not parse is an error), else an empty one.
fn load_existing(existing: Option<&str>) -> (r: Result<ini::Ini, PvmError>)
    ensures
        r is Err <==> parse_fails_of(opt_ref(existing)),
        match r {
            Ok(c) => forall|s: Seq<char>, k: Seq<char>|
                #[trigger] ini_get_of(c, s, k) == base_get_of(opt_ref(existing), s, k),
            Err(e) => existing is Some && e@ is Config,
        },
{
    match existing {
        Some(t) => match ini_parse(t) {
            Ok(c) => Ok(c),
            Err(m) => Err(PvmError::Config(cat("读取 pip.ini 失败: ", m.as_str()))),
        },
        None => Ok(ini_new()),
    }
}

/// Whether the text of an existing file fails to parse.
pub open spec fn parse_fails_of(existing: Option<Seq<char>>) -> bool {
    match existing {
        Some(t) => !ini_parses_of(t),
        None => false,
    }
}

/// What a key holds before an edit: the file's value, or nothing without a
/// file.
pub open spec fn base_get_of(existing: Option<Seq<char>>, s: Seq<char>, k: Seq<char>) -> Option<
    Seq<char>,
> {
    match existing {
        Some(t) => ini_text_get_of(t, s, k),
        None => None,
    }
}

/// A mirror written into a `pip.ini` (given as its text where the file
/// exists): `[global] index-url` is the setting's index, `trusted-host` its
/// host or removed, and every other key keeps its value.
pub fn pip_mirror_set(existing: Option<&str>, setting: &(String, Option<String>)) -> (r: Result<
    ini::Ini,
    PvmError,
>)
    ensures
        r is Err <==> parse_fails_of(opt_ref(existing)),
        match r {
            Ok(c) => {
                &&& ini_get_of(c, "global"@, "index-url"@) == Some(setting.0@)
                &&& ini_get_of(c, "global"@, "trusted-host"@) == opt_string(setting.1)
                &&& forall|s: Seq<char>, k: Seq<char>|
                    !(s == "global"@ && (k == "index-url"@ || k == "trusted-host"@)) ==> #[trigger] ini_get_of(
                        c,
                        s,
                        k,
                    ) == base_get_of(opt_ref(existing), s, k)
            },
            Err(e) => existing is Some && e@ is Config,
        },
{
    let mut conf = match load_existing(existing) {
        Ok(c) => c,
        Err(e) => return Err(e),
    };
    let ghost c0 = conf;
    ini_set(&mut conf, "global", "index-url", setting.0.as_str());
    let ghost c1 = conf;
    match &setting.1 {
        Some(h) => ini_set(&mut conf, "global", "trusted-host", h.as_str()),
        None => ini_remove(&mut conf, "global", "trusted-host"),
    }
    proof {
        reveal_strlit("global");
        reveal_strlit("index-url");
        reveal_strlit("trusted-host");
        assert("index-url"@ != "trusted-host"@) by {
            assert("index-url"@.len() != "trusted-host"@.len());
        }
        assert(ini_get_of(conf, "global"@, "index-url"@) == ini_get_of(c1, "global"@, "index-url"@));
    }
    Ok(conf)
}

/// A `pip.ini` with the mirror taken out: `[global] index-url` and
/// `trusted-host` removed, every other key as it was.
pub fn pip_mirror_reset(existing: &str) -> (r: Result<ini::Ini, PvmError>)
    ensures
        r is Err <==> !ini_parses_of(existing@),
        match r {
            Ok(c) => {
                &&& ini_get_of(c, "global"@, "index-url"@) is None
                &&& ini_get_of(c, "global"@, "trusted-host"@) is None
                &&& forall|s: Seq<char>, k: Seq<char>|
                    !(s == "global"@ && (k == "index-url"@ || k == "trusted-host"@)) ==> #[trigger] ini_get_of(
                        c,
                        s,
                        k,
                    ) == ini_text_get_of(existing@, s, k)
            },
            Err(e) => e@ is Config,
        },
{
    let mut conf = match load_existing(Some(existing)) {
        Ok(c) => c,
        Err(e) => return Err(e),
    };
    ini_remove(&mut conf, "global", "index-url");
    let ghost c1 = conf;
    ini_remove(&mut conf, "global", "trusted-host");
    proof {
        reveal_strlit("global");
        reveal_strlit("index-url");
        reveal_strlit("trusted-host");
        assert("index-url"@ != "trusted-host"@) by {
            assert("index-url"@.len() != "trusted-host"@.len());
        }
        assert(ini_get_of(conf, "global"@, "index-url"@) == ini_get_of(c1, "global"@, "index-url"@));
    }
    Ok(conf)
}

/// The mirror of a `pip.ini`: its `[global] index-url` and
/// `trusted-host`, or nothing where it names no index.
pub fn pip_mirror_current(existing: &str) -> (r: Result<Option<(String, Option<String>)>, PvmError>)
    ensures
        r is Err <==> !ini_parses_of(existing@),
        match r {
            Ok(Some((i, t))) => ini_text_get_of(existing@, "global"@, "index-url"@) == Some(i@)
                && opt_string(t) == ini_text_get_of(existing@, "global"@, "trusted-host"@),
            Ok(None) => ini_text_get_of(existing@, "global"@, "index-url"@) is None,
            Err(e) => e@ is Config,
        },
{
    let conf = match load_existing(Some(existing)) {
        Ok(c) => c,
        Err(e) => return Err(e),
    };
    match ini_get(&conf, "global", "index-url") {
        Some(i) => Ok(Some((i, ini_get(&conf, "global", "trusted-host")))),
        None => Ok(None),
    }
}

/// What `pip-mirror show` prints of a `pip.ini`: the index (`(未设置)`
/// where none) and the trusted host (`(无)` where none).
pub fn pip_mirror_show(existing: &str) -> (r: Result<(String, String), PvmError>)
    ensures
        r is Err <==> !ini_parses_of(existing@),
        match r {
            Ok((i, t)) => i@ == match ini_text_get_of(existing@, "global"@, "index-url"@) {
                Some(v) => v,
                None => "(未设置)"@,
            } && t@ == match ini_text_get_of(existing@, "global"@, "trusted-host"@) {
                Some(v) => v,
                None => "(无)"@,
            },
            Err(e) => e@ is Config,
        },
{
    let conf = match load_existing(Some(existing)) {
        Ok(c) => c,
        Err(e) => return Err(e),
    };
    let i = match ini_get(&conf, "global", "index-url") {
        Some(v) => v,
        None => String::from_str("(未设置)"),
    };
    let t = match ini_get(&conf, "global", "trusted-host") {
        Some(v) => v,
        None => String::from_str("(无)"),
    };
    Ok((i, t))
}

} // verus!
