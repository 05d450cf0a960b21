//! What the desktop front end shows: one record per installed version,
//! remote release, venv and mirror, the current version, the settings and
//! the diagnosis; and how it reads the requests it is sent.
use crate::config::{default_source_of, Config};
use crate::paths::{join, join_of, python_exe_of, venvs_of, Paths};
use crate::pip::{mirror_table, mirror_view, mirrors, Mirror, MirrorView};
use crate::release::ReleaseVersion;
use crate::resolve::{Effective, ResolvedFrom};
use crate::source_pbs::PbsAsset;
use crate::source_pyorg::{release_xyz_of, PyOrgRelease};
use crate::text::{cat, dec, dec_string, parse_u32, parse_u32_str, split_char, split_str, str_eq, views};
use crate::venv::VenvMeta;
use crate::version::{canonical_of, xyz_of, PythonVersion, Source};
use vstd::prelude::*;

verus! {

/// An installed version.
pub struct InstalledInfo {
    pub id: String,
    pub version: String,
    pub source: String,
    pub freethreaded: bool,
    pub path: String,
    pub is_global: bool,
}

pub fn installed_info(v: &PythonVersion, paths: &Paths, global: Option<&PythonVersion>) -> (r:
    InstalledInfo)
    ensures
        r.id@ == canonical_of(*v),
        r.version@ == xyz_of(*v),
        r.source@ == v.source.suffix_of(),
        r.freethreaded == v.freethreaded,
        r.path@ == python_exe_of(paths.root@, *v),
        r.is_global == (global == Some(v)),
{
    let is_global = match global {
        Some(g) => *g == *v,
        None => false,
    };
    InstalledInfo {
        id: v.canonical(),
        version: v.xyz(),
        source: String::from_str(v.source.id_suffix()),
        freethreaded: v.freethreaded,
        path: paths.python_exe(v),
        is_global,
    }
}

/// The effective version.
pub struct CurrentInfo {
    pub id: String,
    pub version: String,
    pub source: String,
    /// `shell`, `local` or `global`.
    pub from: String,
    pub dir: String,
}

pub open spec fn from_kind_of(from: ResolvedFrom) -> Seq<char> {
    match from {
        ResolvedFrom::Shell => "shell"@,
        ResolvedFrom::Local(_) => "local"@,
        ResolvedFrom::Global => "global"@,
    }
}

pub fn current_info(eff: &Effective) -> (r: CurrentInfo)
    ensures
        r.id@ == canonical_of(eff.version),
        r.version@ == xyz_of(eff.version),
        r.source@ == eff.version.source.suffix_of(),
        r.from@ == from_kind_of(eff.from),
        r.dir@ == eff.interpreter_dir@,
{
    let from = match &eff.from {
        ResolvedFrom::Shell => "shell",
        ResolvedFrom::Local(_) => "local",
        ResolvedFrom::Global => "global",
    };
    CurrentInfo {
        id: eff.version.canonical(),
        version: eff.version.xyz(),
        source: String::from_str(eff.version.source.id_suffix()),
        from: String::from_str(from),
        dir: eff.interpreter_dir.clone(),
    }
}

/// A release that can be installed.
pub struct RemoteInfo {
    pub version: String,
    pub source: String,
    pub freethreaded: bool,
    pub installed: bool,
    pub date: Option<String>,
    pub size: Option<u64>,
}

pub open spec fn string_views(v: Seq<String>) -> Seq<Seq<char>> {
    v.map_values(|s: String| s@)
}

fn contains_id(ids: &Vec<String>, id: &str) -> (r: bool)
    ensures
        r == string_views(ids@).contains(id@),
{
    let mut i: usize = 0;
    while i < ids.len()
        invariant
            i <= ids@.len(),
            forall|k: int| 0 <= k < i ==> ids@[k]@ != id@,
        decreases ids@.len() - i,
    {
        if str_eq(ids[i].as_str(), id) {
            assert(string_views(ids@)[i as int] == id@);
            return true;
        }
        i = i + 1;
    }
    assert forall|k: int| 0 <= k < string_views(ids@).len() implies string_views(ids@)[k] != id@ by {
        assert(string_views(ids@)[k] == ids@[k]@);
    }
    false
}

fn release_text(v: &ReleaseVersion) -> (r: String)
    ensures
        r@ == release_xyz_of(*v),
{
    let mut s = dec_string(v.major);
    s.append(".");
    s.append(dec_string(v.minor).as_str());
    s.append(".");
    s.append(dec_string(v.patch).as_str());
    s
}

/// A build of python-build-standalone; `installed_ids` are the ids of the
/// installed versions. The build counts as installed where the default
/// build of its release is.
pub fn remote_info_standalone(asset: &PbsAsset, installed_ids: &Vec<String>) -> (r: RemoteInfo)
    ensures
        r.version@ == release_xyz_of(asset.python_version),
        r.source@ == "standalone"@,
        r.freethreaded == asset.freethreaded,
        r.installed == string_views(installed_ids@).contains(
            "cpython-"@ + release_xyz_of(asset.python_version) + "-standalone"@,
        ),
        r.date matches Some(d) && d@ == asset.release_date@,
        r.size == Some(asset.size),
{
    let ver = release_text(&asset.python_version);
    let mut id = cat("cpython-", ver.as_str());
    id.append("-standalone");
    RemoteInfo {
        installed: contains_id(installed_ids, id.as_str()),
        version: ver,
        source: String::from_str("standalone"),
        freethreaded: asset.freethreaded,
        date: Some(asset.release_date.clone()),
        size: Some(asset.size),
    }
}

/// A python.org release.
pub fn remote_info_org(rel: &PyOrgRelease, installed_ids: &Vec<String>) -> (r: RemoteInfo)
    ensures
        r.version@ == release_xyz_of(rel.version),
        r.source@ == "org"@,
        !r.freethreaded,
        r.installed == string_views(installed_ids@).contains(
            "cpython-"@ + release_xyz_of(rel.version) + "-org"@,
        ),
        r.date is None,
        r.size is None,
{
    let ver = release_text(&rel.version);
    let mut id = cat("cpython-", ver.as_str());
    id.append("-org");
    RemoteInfo {
        installed: contains_id(installed_ids, id.as_str()),
        version: ver,
        source: String::from_str("org"),
        freethreaded: false,
        date: None,
        size: None,
    }
}

/// A central venv.
pub struct VenvInfo {
    pub name: String,
    pub python_version: String,
    pub source: String,
    pub created_at: String,
    pub path: String,
}

pub fn venv_info(m: VenvMeta, paths: &Paths) -> (r: VenvInfo)
    ensures
        r.name@ == m.name@,
        r.python_version@ == m.python_version@,
        r.source@ == m.source@,
        r.created_at@ == m.created_at@,
        r.path@ == join_of(venvs_of(paths.root@), m.name@),
{
    let d = paths.venvs();
    let path = join(d.as_str(), m.name.as_str());
    VenvInfo {
        path,
        name: m.name,
        python_version: m.python_version,
        source: m.source,
        created_at: m.created_at,
    }
}

/// A mirror as listed: its first alias, its name and its index.
pub struct MirrorInfo {
    pub alias: String,
    pub display: String,
    pub index_url: String,
}

pub open spec fn mirror_info_ok(i: MirrorInfo, m: MirrorView) -> bool {
    i.alias@ == m.0[0] && i.display@ == m.1 && i.index_url@ == m.2
}

proof fn lemma_aliases_nonempty(k: int)
    requires
        0 <= k < mirror_table().len(),
    ensures
        mirror_table()[k].0.len() > 0,
{
    let t = mirror_table();
    if k == 0 {
        assert(t[0].0.len() == 2);
    } else if k == 1 {
        assert(t[1].0.len() == 2);
    } else if k == 2 {
        assert(t[2].0.len() == 1);
    } else if k == 3 {
        assert(t[3].0.len() == 2);
    } else if k == 4 {
        assert(t[4].0.len() == 2);
    } else {
        assert(t[5].0.len() == 2);
    }
}

/// The built-in mirrors, in order.
pub fn mirror_list() -> (r: Vec<MirrorInfo>)
    ensures
        r@.len() == mirror_table().len(),
        forall|k: int| 0 <= k < r@.len() ==> mirror_info_ok(#[trigger] r@[k], mirror_table()[k]),
{
    let ms = mirrors();
    let ghost mv = ms@.map_values(|m: Mirror| mirror_view(m));
    let mut out: Vec<MirrorInfo> = Vec::new();
    let mut i: usize = 0;
    while i < ms.len()
        invariant
            mv == ms@.map_values(|m: Mirror| mirror_view(m)),
            mv == mirror_table(),
            i <= ms@.len(),
            out@.len() == i,
            forall|k: int| 0 <= k < i ==> mirror_info_ok(#[trigger] out@[k], mirror_table()[k]),
        decreases ms@.len() - i,
    {
        let m = &ms[i];
        assert(mirror_view(*m) == mirror_table()[i as int]);
        assert(m.aliases@.len() > 0) by {
            assert(mirror_view(*m).0.len() == m.aliases@.len());
            lemma_aliases_nonempty(i as int);
        }
        let alias = m.aliases[0];
        assert(mirror_view(*m).0[0] == alias@);
        out.push(
            MirrorInfo {
                alias: String::from_str(alias),
                display: String::from_str(m.display),
                index_url: String::from_str(m.index_url),
            },
        );
        i = i + 1;
    }
    out
}

/// The global pip mirror: index URL and trusted host, where set.
pub struct MirrorCurrent {
    pub index_url: Option<String>,
    pub trusted_host: Option<String>,
}

pub fn mirror_current(current: Option<(String, Option<String>)>) -> (r: MirrorCurrent)
    ensures
        match current {
            Some(c) => r.index_url == Some(c.0) && r.trusted_host == c.1,
            None => r.index_url is None && r.trusted_host is None,
        },
{
    match current {
        Some((idx, th)) => MirrorCurrent { index_url: Some(idx), trusted_host: th },
        None => MirrorCurrent { index_url: None, trusted_host: None },
    }
}

/// The settings shown.
pub struct ConfigInfo {
    pub default_source: String,
    pub pip_mirror: Option<String>,
}

pub open spec fn opt_sv(o: Option<String>) -> Option<Seq<char>> {
    match o {
        Some(s) => Some(s@),
        None => None,
    }
}

pub fn config_info(c: &Config) -> (r: ConfigInfo)
    ensures
        r.default_source@ == default_source_of(opt_sv(c.default_source)).cli_of(),
        opt_sv(r.pip_mirror) == opt_sv(c.pip_mirror),
{
    ConfigInfo {
        default_source: String::from_str(c.default_source_resolved().cli_value()),
        pip_mirror: match &c.pip_mirror {
            Some(m) => Some(m.clone()),
            None => None,
        },
    }
}

/// The diagnosis shown.
pub struct DoctorInfo {
    pub root: String,
    pub shim_ready: bool,
    pub shims_in_path: bool,
    pub global: Option<String>,
    pub installed_count: usize,
}

pub fn doctor_info(
    paths: &Paths,
    shim_ready: bool,
    path_var: &str,
    global: Option<&PythonVersion>,
    installed_count: usize,
) -> (r: DoctorInfo)
    ensures
        r.root@ == paths.root@,
        r.shim_ready == shim_ready,
        r.shims_in_path == crate::commands::shims_in_path_of(path_var@, join_of(paths.root@, "shims"@)),
        opt_sv(r.global) == match global {
            Some(v) => Some(canonical_of(*v)),
            None => None,
        },
        r.installed_count == installed_count,
{
    let shims = paths.shims();
    DoctorInfo {
        root: paths.root.clone(),
        shim_ready,
        shims_in_path: crate::commands::shims_in_path(path_var, shims.as_str()),
        global: match global {
            Some(v) => Some(v.canonical()),
            None => None,
        },
        installed_count,
    }
}

/// A source named by the front end: `standalone`, or `cpython` or `org`.
pub fn parse_source(s: &str) -> (r: Result<Source, String>)
    ensures
        match r {
            Ok(src) => Source::parse_cli(s@) == Some(src),
            Err(m) => Source::parse_cli(s@) is None && m@ == "未知来源: "@ + s@,
        },
{
    match Source::from_cli(s) {
        Some(src) => Ok(src),
        None => Err(cat("未知来源: ", s)),
    }
}

/// The version to install from the front end's `x.y.z`, source and
/// threading.
pub open spec fn install_version_of(version: Seq<char>, source: Source, freethreaded: bool) -> Result<
    PythonVersion,
    Seq<char>,
> {
    let parts = split_char(version, '.');
    if parts.len() != 3 {
        Err("版本号需为 x.y.z："@ + version)
    } else {
        match (parse_u32(parts[0]), parse_u32(parts[1]), parse_u32(parts[2])) {
            (None, _, _) => Err("非法主版本号"@),
            (Some(_), None, _) => Err("非法次版本号"@),
            (Some(_), Some(_), None) => Err("非法补丁号"@),
            (Some(a), Some(b), Some(c)) => Ok(
                PythonVersion { source, major: a, minor: b, patch: c, freethreaded },
            ),
        }
    }
}

pub fn install_version(version: &str, source: Source, freethreaded: bool) -> (r: Result<
    PythonVersion,
    String,
>)
    ensures
        match r {
            Ok(v) => install_version_of(version@, source, freethreaded) == Ok::<PythonVersion, Seq<char>>(v),
            Err(m) => install_version_of(version@, source, freethreaded) == Err::<PythonVersion, Seq<char>>(m@),
        },
{
    let parts = split_str(version, '.');
    if parts.len() != 3 {
        return Err(cat("版本号需为 x.y.z：", version));
    }
    assert(views(parts@)[0] == parts@[0]@);
    assert(views(parts@)[1] == parts@[1]@);
    assert(views(parts@)[2] == parts@[2]@);
    let major = match parse_u32_str(parts[0]) {
        Some(n) => n,
        None => return Err(String::from_str("非法主版本号")),
    };
    let minor = match parse_u32_str(parts[1]) {
        Some(n) => n,
        None => return Err(String::from_str("非法次版本号")),
    };
    let patch = match parse_u32_str(parts[2]) {
        Some(n) => n,
        None => return Err(String::from_str("非法补丁号")),
    };
    Ok(PythonVersion { source, major, minor, patch, freethreaded })
}

/// The front end reads back the `x.y.z` that it shows for a version.
pub proof fn lemma_install_version_roundtrip(v: PythonVersion)
    ensures
        install_version_of(xyz_of(v), v.source, v.freethreaded) == Ok::<PythonVersion, Seq<char>>(v),
{
    reveal_strlit(".");
    let a = dec(v.major as nat);
    let b = dec(v.minor as nat);
    let c = dec(v.patch as nat);
    crate::text::lemma_dec(v.major as nat);
    crate::text::lemma_dec(v.minor as nat);
    crate::text::lemma_dec(v.patch as nat);
    assert("."@ =~= seq!['.']);
    assert(xyz_of(v) =~= a + seq!['.'] + b + seq!['.'] + c);
    crate::text::lemma_split_three(a, b, c);
    crate::text::lemma_parse_dec(v.major);
    crate::text::lemma_parse_dec(v.minor);
    crate::text::lemma_parse_dec(v.patch);
}

/// Download threads for the front end: 8 where none are asked for, at most
/// 16.
pub fn thread_count(threads: usize) -> (r: usize)
    ensures
        r == (if threads == 0 {
            8
        } else if threads < 16 {
            threads
        } else {
            16
        }),
{
    if threads == 0 {
        8
    } else if threads < 16 {
        threads
    } else {
        16
    }
}

/// The asset of a release for an install from the front end: the first
/// listed with the version's numbers.
pub fn find_pbs_asset(v: &PythonVersion, assets: &Vec<PbsAsset>) -> (r: Result<usize, String>)
    ensures
        match r {
            Ok(i) => i < assets@.len() && assets@[i as int].python_version == (ReleaseVersion {
                major: v.major as u64,
                minor: v.minor as u64,
                patch: v.patch as u64,
            }) && forall|k: int|
                0 <= k < i ==> #[trigger] assets@[k].python_version != (ReleaseVersion {
                    major: v.major as u64,
                    minor: v.minor as u64,
                    patch: v.patch as u64,
                }),
            Err(m) => m@ == "standalone 无此版本资产: "@ + xyz_of(*v) && forall|k: int|
                0 <= k < assets@.len() ==> #[trigger] assets@[k].python_version != (ReleaseVersion {
                    major: v.major as u64,
                    minor: v.minor as u64,
                    patch: v.patch as u64,
                }),
        },
{
    let want = ReleaseVersion { major: v.major as u64, minor: v.minor as u64, patch: v.patch as u64 };
    let mut i: usize = 0;
    while i < assets.len()
        invariant
            want == (ReleaseVersion {
                major: v.major as u64,
                minor: v.minor as u64,
                patch: v.patch as u64,
            }),
            i <= assets@.len(),
            forall|k: int| 0 <= k < i ==> #[trigger] assets@[k].python_version != want,
        decreases assets@.len() - i,
    {
        if assets[i].python_version == want {
            return Ok(i);
        }
        i = i + 1;
    }
    Err(cat("standalone 无此版本资产: ", v.xyz().as_str()))
}


/// The global version as the front end shows it: the global file's request
/// (without a leading byte-order mark, trimmed; none where blank) resolved against the installed versions;
/// none where it does not resolve.
pub open spec fn global_version_of(
    raw: Option<Seq<char>>,
    default_source: Source,
    installed: Seq<PythonVersion>,
) -> Option<PythonVersion> {
    match raw {
        None => None,
        Some(x) => if crate::text::trim_file(x).len() == 0 {
            None
        } else {
            match crate::resolve::finalize_of(crate::text::trim_file(x), default_source, installed) {
                Ok(v) => Some(v),
                Err(_) => None,
            }
        },
    }
}

pub fn global_version(raw: Option<&str>, default_source: Source, installed: &Vec<PythonVersion>) -> (r:
    Option<PythonVersion>)
    ensures
        r == global_version_of(
            match raw {
                Some(x) => Some(x@),
                None => None,
            },
            default_source,
            installed@,
        ),
{
    let x = match raw {
        Some(x) => x,
        None => return None,
    };
    let t = crate::text::trim_file_str(x);
    if t.unicode_len() == 0 {
        return None;
    }
    let sel = match crate::version::parse_selector(t) {
        Ok(s) => s,
        Err(_) => return None,
    };
    match crate::resolve::resolve_installed(&sel, default_source, installed) {
        Ok(v) => Some(v),
        Err(_) => None,
    }
}

} // verus!
