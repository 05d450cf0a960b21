//! python.org: the installer and embeddable-package URLs, the release list
//! read from the FTP directory index, and the silent installer: its
//! arguments and what its exit code means.
use crate::error::{ErrView, PvmError};
use crate::paths::{join, join_of, versions_of, Paths};
use crate::release::{
    dotted_triple, is_dotted_triple, parse_release, release_lt, release_precedes,
    semver_triple_of, ReleaseVersion,
};
use crate::text::{cat, dec, dec_string, is_digit, occurs_at, occurs_at_str};
use crate::version::{canonical_of, xyz_of, PythonVersion};
use vstd::prelude::*;

verus! {

/// How a python.org build is installed.
pub enum PyOrgFlavor {
    /// The official installer, run silently.
    Installer,
    /// The embeddable zip package.
    Embed,
}

/// A release listed on python.org.
pub struct PyOrgRelease {
    pub version: ReleaseVersion,
    pub is_prerelease: bool,
    pub installer_url: String,
    pub embed_url: String,
    pub sha256: Option<String>,
}

/// `X.Y.Z` of a release number.
pub open spec fn release_xyz_of(v: ReleaseVersion) -> Seq<char> {
    dec(v.major as nat) + "."@ + dec(v.minor as nat) + "."@ + dec(v.patch as nat)
}

fn release_xyz(v: &ReleaseVersion) -> (r: String)
    ensures
        r@ == release_xyz_of(*v),
{
    let mut s = dec_string(v.major);
    s.append(".");
    s.append(dec_string(v.minor).as_str());
    s.append(".");
    s.append(dec_string(v.patch).as_str());
    s
}

/// `https://www.python.org/ftp/python/<X.Y.Z>/python-<X.Y.Z>-amd64.exe`.
pub open spec fn installer_url_of(xyz: Seq<char>) -> Seq<char> {
    "https://www.python.org/ftp/python/"@ + xyz + "/python-"@ + xyz + "-amd64.exe"@
}

/// `https://www.python.org/ftp/python/<X.Y.Z>/python-<X.Y.Z>-embed-amd64.zip`.
pub open spec fn embed_url_of(xyz: Seq<char>) -> Seq<char> {
    "https://www.python.org/ftp/python/"@ + xyz + "/python-"@ + xyz + "-embed-amd64.zip"@
}

fn installer_url_str(xyz: &str) -> (r: String)
    ensures
        r@ == installer_url_of(xyz@),
{
    let mut s = String::from_str("https://www.python.org/ftp/python/");
    s.append(xyz);
    s.append("/python-");
    s.append(xyz);
    s.append("-amd64.exe");
    s
}

/// The 64-bit installer of a version.
pub fn installer_url(v: &PythonVersion) -> (r: String)
    ensures
        r@ == installer_url_of(xyz_of(*v)),
{
    let x = v.xyz();
    installer_url_str(x.as_str())
}

/// The 64-bit embeddable package of `X.Y.Z`.
pub fn embed_url(xyz: &str) -> (r: String)
    ensures
        r@ == embed_url_of(xyz@),
{
    let mut s = String::from_str("https://www.python.org/ftp/python/");
    s.append(xyz);
    s.append("/python-");
    s.append(xyz);
    s.append("-embed-amd64.zip");
    s
}

// ------------------------------------------------------------ the FTP index

pub open spec fn is_vchar(c: char) -> bool {
    is_digit(c) || c == '.'
}

/// End of the run of digits and dots that starts at `j`.
pub open spec fn run_end(s: Seq<char>, j: int) -> int
    decreases s.len() - j,
{
    if 0 <= j < s.len() && is_vchar(s[j]) {
        run_end(s, j + 1)
    } else {
        j
    }
}

/// The version directory linked at `i` of the index page: the text matched
/// by `href="(\d+\.\d+\.\d+)/"` there.
pub open spec fn index_entry_at(html: Seq<char>, i: int) -> Option<Seq<char>> {
    if occurs_at(html, "href=\""@, i) {
        let j = i + 6;
        let e = run_end(html, j);
        let v = html.subrange(j, e);
        if dotted_triple(v) && occurs_at(html, "/\""@, e) {
            Some(v)
        } else {
            None
        }
    } else {
        None
    }
}

/// The 3.x release linked at `i` of the index page, where Semantic
/// Versioning reads it.
pub open spec fn listed_at(html: Seq<char>, i: int) -> Option<ReleaseVersion> {
    match index_entry_at(html, i) {
        Some(v) => match semver_triple_of(v) {
            Some(ver) => if ver.major == 3 {
                Some(ver)
            } else {
                None
            },
            None => None,
        },
        None => None,
    }
}

/// The index links to `ver`, a 3.x release.
pub open spec fn indexed(html: Seq<char>, ver: ReleaseVersion) -> bool {
    exists|i: int| #[trigger] listed_at(html, i) == Some(ver)
}

/// `rs` lists `ver`.
pub open spec fn lists(rs: Seq<PyOrgRelease>, ver: ReleaseVersion) -> bool {
    exists|k: int| 0 <= k < rs.len() && #[trigger] rs[k].version == ver
}

/// The release record of a listed version: its two URLs, no checksum.
pub open spec fn release_record_ok(r: PyOrgRelease) -> bool {
    &&& !r.is_prerelease
    &&& r.installer_url@ == installer_url_of(release_xyz_of(r.version))
    &&& r.embed_url@ == embed_url_of(release_xyz_of(r.version))
    &&& r.sha256 is None
}

proof fn lemma_run_end(s: Seq<char>, j: int)
    requires
        0 <= j <= s.len(),
    ensures
        j <= run_end(s, j) <= s.len(),
        forall|t: int| j <= t < run_end(s, j) ==> is_vchar(#[trigger] s[t]),
        run_end(s, j) < s.len() ==> !is_vchar(s[run_end(s, j)]),
    decreases s.len() - j,
{
    if j < s.len() && is_vchar(s[j]) {
        lemma_run_end(s, j + 1);
    }
}

fn is_vchar_exec(c: char) -> (r: bool)
    ensures
        r == is_vchar(c),
{
    ('0' <= c && c <= '9') || c == '.'
}

fn run_end_exec(s: &str, j: usize) -> (e: usize)
    requires
        j <= s@.len(),
    ensures
        e == run_end(s@, j as int),
{
    let n = s.unicode_len();
    let mut e = j;
    proof {
        lemma_run_end(s@, j as int);
    }
    while e < n && is_vchar_exec(s.get_char(e))
        invariant
            n == s@.len(),
            j <= e <= n,
            run_end(s@, e as int) == run_end(s@, j as int),
        decreases n - e,
    {
        e = e + 1;
    }
    e
}

fn entry_at(html: &str, i: usize) -> (r: Option<ReleaseVersion>)
    requires
        i < html@.len(),
    ensures
        r == (match index_entry_at(html@, i as int) {
            Some(v) => semver_triple_of(v),
            None => None,
        }),
{
    proof {
        reveal_strlit("href=\"");
        reveal_strlit("/\"");
    }
    let n = html.unicode_len();
    if n - i < 6 || !occurs_at_str(html, "href=\"", i) {
        return None;
    }
    let j = i + 6;
    let e = run_end_exec(html, j);
    proof {
        lemma_run_end(html@, j as int);
    }
    let v = html.substring_char(j, e);
    if !is_dotted_triple(v) || n - e < 2 || !occurs_at_str(html, "/\"", e) {
        return None;
    }
    parse_release(v)
}

fn release_record(ver: ReleaseVersion) -> (r: PyOrgRelease)
    ensures
        r.version == ver,
        release_record_ok(r),
{
    let x = release_xyz(&ver);
    PyOrgRelease {
        version: ver,
        is_prerelease: false,
        installer_url: installer_url_str(x.as_str()),
        embed_url: embed_url(x.as_str()),
        sha256: None,
    }
}

/// Newest first, each release once.
pub open spec fn newest_first(rs: Seq<PyOrgRelease>) -> bool {
    forall|p: int, q: int|
        0 <= p < q < rs.len() ==> release_lt(#[trigger] rs[q].version, #[trigger] rs[p].version)
}

/// Adds the record of `ver` in its place, unless it is listed already.
fn add_release(out: &mut Vec<PyOrgRelease>, ver: ReleaseVersion)
    requires
        newest_first(old(out)@),
        forall|k: int| 0 <= k < old(out)@.len() ==> release_record_ok(#[trigger] old(out)@[k]),
    ensures
        newest_first(final(out)@),
        forall|k: int| 0 <= k < final(out)@.len() ==> release_record_ok(#[trigger] final(out)@[k]),
        forall|w: ReleaseVersion| #[trigger] lists(final(out)@, w) == (lists(old(out)@, w) || w == ver),
{
    let mut k: usize = 0;
    while k < out.len() && release_precedes(&ver, &out[k].version)
        invariant
            k <= out@.len(),
            forall|t: int| 0 <= t < k ==> release_lt(ver, #[trigger] out@[t].version),
        decreases out@.len() - k,
    {
        k = k + 1;
    }
    if k < out.len() && out[k].version == ver {
        assert forall|w: ReleaseVersion| #[trigger] lists(out@, w) == (lists(out@, w) || w == ver) by {
            if w == ver {
                assert(out@[k as int].version == ver);
            }
        }
        return;
    }
    let ghost before = out@;
    let rec = release_record(ver);
    out.insert(k, rec);
    assert forall|kk: int| 0 <= kk < out@.len() implies release_record_ok(#[trigger] out@[kk]) by {
        if kk < k {
            assert(out@[kk] == before[kk]);
        } else if kk > k {
            assert(out@[kk] == before[kk - 1]);
        }
    }
    assert forall|w: ReleaseVersion| #[trigger] lists(out@, w) == (lists(before, w) || w == ver) by {
        if lists(before, w) {
            let t0 = choose|t0: int| 0 <= t0 < before.len() && #[trigger] before[t0].version == w;
            if t0 < k {
                assert(out@[t0] == before[t0]);
            } else {
                assert(out@[t0 + 1] == before[t0]);
            }
        }
        if w == ver {
            assert(out@[k as int].version == ver);
        }
        if lists(out@, w) {
            let t0 = choose|t0: int| 0 <= t0 < out@.len() && #[trigger] out@[t0].version == w;
            if t0 < k {
                assert(out@[t0] == before[t0]);
            } else if t0 > k {
                assert(out@[t0] == before[t0 - 1]);
            }
        }
    }
    assert forall|p: int, q: int| 0 <= p < q < out@.len() implies release_lt(
        #[trigger] out@[q].version,
        #[trigger] out@[p].version,
    ) by {
        if q < k {
            assert(out@[p] == before[p] && out@[q] == before[q]);
        } else if q == k {
            assert(out@[p] == before[p]);
        } else if p == k {
            assert(out@[q] == before[q - 1]);
            if q - 1 > k {
                assert(release_lt(before[q - 1].version, before[k as int].version));
            }
        } else if p > k {
            assert(out@[p] == before[p - 1] && out@[q] == before[q - 1]);
        } else {
            assert(out@[p] == before[p] && out@[q] == before[q - 1]);
        }
    }
}

/// The releases linked from the FTP directory index, newest first: each
/// 3.x version directory once.
pub fn releases_from_index(html: &str) -> (r: Vec<PyOrgRelease>)
    ensures
        forall|k: int| 0 <= k < r@.len() ==> indexed(html@, (#[trigger] r@[k]).version),
        forall|k: int| 0 <= k < r@.len() ==> release_record_ok(#[trigger] r@[k]),
        forall|i: int| #[trigger] listed_at(html@, i) is Some ==> lists(r@, listed_at(html@, i)->0),
        newest_first(r@),
{
    let n = html.unicode_len();
    let mut out: Vec<PyOrgRelease> = Vec::new();
    let mut i: usize = 0;
    while i < n
        invariant
            n == html@.len(),
            i <= n,
            forall|w: ReleaseVersion| #[trigger] lists(out@, w) ==> indexed(html@, w),
            forall|k: int| 0 <= k < out@.len() ==> release_record_ok(#[trigger] out@[k]),
            forall|t: int|
                0 <= t < i && #[trigger] listed_at(html@, t) is Some ==> lists(out@, listed_at(html@, t)->0),
            newest_first(out@),
        decreases n - i,
    {
        let found = entry_at(html, i);
        match found {
            Some(ver) => {
                if ver.major == 3 {
                    let ghost before = out@;
                    add_release(&mut out, ver);
                    assert(listed_at(html@, i as int) == Some(ver));
                    assert(indexed(html@, ver));
                    assert forall|t: int|
                        0 <= t < i + 1 && #[trigger] listed_at(html@, t) is Some implies lists(
                        out@,
                        listed_at(html@, t)->0,
                    ) by {
                        if t < i {
                            assert(lists(before, listed_at(html@, t)->0));
                        }
                    }
                    assert forall|w: ReleaseVersion| #[trigger] lists(out@, w) implies indexed(html@, w) by {
                        if w != ver {
                            assert(lists(before, w));
                        }
                    }
                } else {
                    assert(listed_at(html@, i as int) is None);
                }
            },
            None => {
                assert(listed_at(html@, i as int) is None);
            },
        }
        i = i + 1;
    }
    proof {
        assert forall|t: int| #[trigger] listed_at(html@, t) is Some implies lists(
            out@,
            listed_at(html@, t)->0,
        ) by {
            if t < 0 || t >= n {
                assert(!occurs_at(html@, "href=\""@, t));
            }
        }
        assert forall|k: int| 0 <= k < out@.len() implies indexed(html@, (#[trigger] out@[k]).version) by {
            assert(lists(out@, out@[k].version));
        }
    }
    out
}

// ------------------------------------------------------------ the installer

/// What installing one python.org version takes: the installer to fetch and
/// where to keep it, the directories it installs into and backs up to, its
/// log, its arguments, and the number of download threads when the download
/// is split.
pub struct InstallerPlan {
    pub exe: String,
    pub url: String,
    pub target: String,
    pub backup: String,
    pub log: String,
    pub args: Vec<String>,
    pub threads: Option<usize>,
}

pub open spec fn string_views(v: Seq<String>) -> Seq<Seq<char>> {
    v.map_values(|s: String| s@)
}

/// The installer's switches: a per-user install into `target`, without the
/// launcher, shortcuts, file associations, PATH changes, byte-compiling,
/// tests or docs, with pip and Tk, logging to `log`.
pub open spec fn installer_args_of(target: Seq<char>, log: Seq<char>) -> Seq<Seq<char>> {
    seq![
        "/quiet"@,
        "InstallAllUsers=0"@,
        "TargetDir="@ + target,
        "Include_launcher=0"@,
        "Shortcuts=0"@,
        "AssociateFiles=0"@,
        "PrependPath=0"@,
        "AppendPath=0"@,
        "CompileAll=0"@,
        "Include_test=0"@,
        "Include_doc=0"@,
        "Include_pip=1"@,
        "Include_tcltk=1"@,
        "/log"@,
        log,
    ]
}

pub fn installer_args(target: &str, log: &str) -> (r: Vec<String>)
    ensures
        string_views(r@) == installer_args_of(target@, log@),
{
    let mut v: Vec<String> = Vec::new();
    v.push(String::from_str("/quiet"));
    v.push(String::from_str("InstallAllUsers=0"));
    v.push(cat("TargetDir=", target));
    v.push(String::from_str("Include_launcher=0"));
    v.push(String::from_str("Shortcuts=0"));
    v.push(String::from_str("AssociateFiles=0"));
    v.push(String::from_str("PrependPath=0"));
    v.push(String::from_str("AppendPath=0"));
    v.push(String::from_str("CompileAll=0"));
    v.push(String::from_str("Include_test=0"));
    v.push(String::from_str("Include_doc=0"));
    v.push(String::from_str("Include_pip=1"));
    v.push(String::from_str("Include_tcltk=1"));
    v.push(String::from_str("/log"));
    v.push(String::from_str(log));
    assert(string_views(v@) =~= installer_args_of(target@, log@));
    v
}

/// The cached installer `cache\python-<X.Y.Z>-amd64.exe`.
pub open spec fn installer_exe_of(root: Seq<char>, v: PythonVersion) -> Seq<char> {
    join_of(join_of(root, "cache"@), "python-"@ + xyz_of(v) + "-amd64.exe"@)
}

pub fn installer_exe(paths: &Paths, v: &PythonVersion) -> (r: String)
    ensures
        r@ == installer_exe_of(paths.root@, *v),
{
    let c = paths.cache();
    let x = v.xyz();
    let mut name = cat("python-", x.as_str());
    name.append("-amd64.exe");
    join(c.as_str(), name.as_str())
}

pub open spec fn plan_ok(p: InstallerPlan, root: Seq<char>, v: PythonVersion) -> bool {
    &&& p.exe@ == installer_exe_of(root, v)
    &&& p.url@ == installer_url_of(xyz_of(v))
    &&& p.target@ == crate::paths::version_dir_of(root, v)
    &&& p.backup@ == join_of(versions_of(root), ".old-"@ + canonical_of(v))
    &&& p.log@ == join_of(join_of(root, "logs"@), "install-"@ + xyz_of(v) + ".log"@)
    &&& string_views(p.args@) == installer_args_of(p.target@, p.log@)
}

fn plan(v: &PythonVersion, paths: &Paths, threads: Option<usize>) -> (r: InstallerPlan)
    ensures
        plan_ok(r, paths.root@, *v),
        r.threads == threads,
{
    let exe = installer_exe(paths, v);
    let url = installer_url(v);
    let target = paths.version_dir(v);
    let vs = paths.versions();
    let id = v.canonical();
    let bname = cat(".old-", id.as_str());
    let backup = join(vs.as_str(), bname.as_str());
    let logs = paths.logs();
    let x = v.xyz();
    let mut lname = cat("install-", x.as_str());
    lname.append(".log");
    let log = join(logs.as_str(), lname.as_str());
    let args = installer_args(target.as_str(), log.as_str());
    InstallerPlan { exe, url, target, backup, log, args, threads }
}

/// Installs a version with the official installer, fetched whole.
pub fn install_via_installer(v: &PythonVersion, paths: &Paths) -> (r: InstallerPlan)
    ensures
        plan_ok(r, paths.root@, *v),
        r.threads is None,
{
    plan(v, paths, None)
}

/// Installs a version with the official installer, fetched in `threads`
/// parts at once.
pub fn install_via_installer_progress(v: &PythonVersion, paths: &Paths, threads: usize) -> (r:
    InstallerPlan)
    ensures
        plan_ok(r, paths.root@, *v),
        r.threads == Some(threads),
{
    plan(v, paths, Some(threads))
}

/// What the installer's exit status means: 0 and 3010 (success, restart
/// needed) succeed; any other code, or none (killed), fails with the log's
/// path.
pub open spec fn installer_outcome_of(code: Option<i32>, log: Seq<char>) -> Result<(), ErrView> {
    match code {
        Some(c) => if c == 0 || c == 3010 {
            Ok(())
        } else {
            Err(ErrView::Installer(c, log))
        },
        None => Err(ErrView::Installer(-1i32, log)),
    }
}

pub fn installer_outcome(code: Option<i32>, log: &str) -> (r: Result<(), PvmError>)
    ensures
        crate::error::rv(r) == installer_outcome_of(code, log@),
{
    match code {
        Some(c) => if c == 0 || c == 3010 {
            Ok(())
        } else {
            Err(PvmError::Installer { code: c, log: String::from_str(log) })
        },
        None => Err(PvmError::Installer { code: -1, log: String::from_str(log) }),
    }
}

/// The installer could not be started.
pub fn installer_not_started(reason: &str) -> (r: PvmError)
    ensures
        r@ == ErrView::Installer(-1i32, "无法启动安装器: "@ + reason@),
{
    PvmError::Installer { code: -1, log: cat("无法启动安装器: ", reason) }
}

/// The arguments that uninstall with the same installer.
pub fn uninstall_args() -> (r: Vec<String>)
    ensures
        string_views(r@) == seq!["/quiet"@, "/uninstall"@],
{
    let mut v: Vec<String> = Vec::new();
    v.push(String::from_str("/quiet"));
    v.push(String::from_str("/uninstall"));
    assert(string_views(v@) =~= seq!["/quiet"@, "/uninstall"@]);
    v
}

/// What the uninstaller's exit status means; on failure the version's
/// directory is kept.
pub open spec fn uninstall_outcome_of(code: Option<i32>) -> Result<(), ErrView> {
    match code {
        Some(c) => if c == 0 || c == 3010 {
            Ok(())
        } else {
            Err(ErrView::Installer(c, "卸载器返回非成功退出码，已保留版本目录"@))
        },
        None => Err(ErrView::Installer(-1i32, "卸载器被终止，已保留版本目录"@)),
    }
}

pub fn uninstall_outcome(code: Option<i32>) -> (r: Result<(), PvmError>)
    ensures
        crate::error::rv(r) == uninstall_outcome_of(code),
{
    match code {
        Some(c) => if c == 0 || c == 3010 {
            Ok(())
        } else {
            Err(
                PvmError::Installer {
                    code: c,
                    log: String::from_str("卸载器返回非成功退出码，已保留版本目录"),
                },
            )
        },
        None => Err(
            PvmError::Installer { code: -1, log: String::from_str("卸载器被终止，已保留版本目录") },
        ),
    }
}

/// The uninstaller could not be started.
pub fn uninstaller_not_started(reason: &str) -> (r: PvmError)
    ensures
        r@ == ErrView::Installer(-1i32, "无法启动卸载器: "@ + reason@),
{
    PvmError::Installer { code: -1, log: cat("无法启动卸载器: ", reason) }
}

// ------------------------------------------------------------ embeddable

/// The cached embeddable package `cache\python-<X.Y.Z>-embed-amd64.zip`.
pub fn embed_zip(paths: &Paths, v: &PythonVersion) -> (r: String)
    ensures
        r@ == join_of(join_of(paths.root@, "cache"@), "python-"@ + xyz_of(*v) + "-embed-amd64.zip"@),
{
    let c = paths.cache();
    let x = v.xyz();
    let mut name = cat("python-", x.as_str());
    name.append("-embed-amd64.zip");
    join(c.as_str(), name.as_str())
}

/// The `._pth` files of an embeddable package: `python*._pth`.
pub fn is_pth_file(name: &str) -> (r: bool)
    ensures
        r == (crate::text::starts_with(name@, "python"@) && crate::text::ends_with(name@, "._pth"@)),
{
    crate::text::starts_with_str(name, "python") && crate::text::ends_with_str(name, "._pth")
}

/// A `._pth` file with `site` switched on: every `#import site` becomes
/// `import site`.
pub fn enable_site(content: &str) -> (r: String)
    ensures
        r@ == crate::text::replace_of(content@, "#import site"@, "import site"@),
{
    crate::text::replace_all(content, "#import site", "import site")
}

} // verus!
