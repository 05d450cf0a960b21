//! Self-update: whether GitHub's latest release of pvm is newer than the
//! running one, and which of its assets is the installer. The request and
//! the download are the caller's.
use crate::error::{ErrView, PvmError};
use crate::paths::{join, join_of, Paths};
use crate::release::{dotted_triple, semver_gt_of, triples_gt_of, version_gt, version_gt_of};
use crate::text::{cat, contains_str, ends_with, ends_with_str, has_sub, lowercase_of, to_lower};
use vstd::prelude::*;

verus! {

/// The repository of pvm on GitHub.
pub const REPO: &'static str = "Eldon27232/pvm";

/// What a check for updates found.
pub struct UpdateInfo {
    pub current: String,
    pub latest: String,
    pub has_update: bool,
    pub notes: String,
    pub html_url: String,
    /// The installer (`setup.exe`) to download; none where the release has
    /// none, and the release page must be used.
    pub download_url: Option<String>,
    pub asset_name: Option<String>,
}

/// An asset of a release: its name and download URL, where given as text.
pub struct ReleaseAsset {
    pub name: Option<String>,
    pub url: Option<String>,
}

/// The latest release as GitHub describes it: each field where given as
/// text; the assets where given as a list.
pub struct LatestRelease {
    pub tag_name: Option<String>,
    pub body: Option<String>,
    pub html_url: Option<String>,
    pub assets: Option<Vec<ReleaseAsset>>,
}

/// `https://api.github.com/repos/Eldon27232/pvm/releases/latest`.
pub fn latest_release_url() -> (r: String)
    ensures
        r@ == "https://api.github.com/repos/Eldon27232/pvm/releases/latest"@,
{
    String::from_str("https://api.github.com/repos/Eldon27232/pvm/releases/latest")
}

/// `s` without the `v`s and `V`s at its start.
pub open spec fn trim_v_of(s: Seq<char>) -> Seq<char>
    decreases s.len(),
{
    if s.len() > 0 && (s[0] == 'v' || s[0] == 'V') {
        trim_v_of(s.drop_first())
    } else {
        s
    }
}

fn trim_v(s: &str) -> (r: &str)
    ensures
        r@ == trim_v_of(s@),
{
    let n = s.unicode_len();
    let mut a: usize = 0;
    assert(s@.subrange(0, n as int) =~= s@);
    while a < n && (s.get_char(a) == 'v' || s.get_char(a) == 'V')
        invariant
            n == s@.len(),
            a <= n,
            trim_v_of(s@.subrange(a as int, n as int)) == trim_v_of(s@),
        decreases n - a,
    {
        assert(s@.subrange(a as int, n as int).drop_first() =~= s@.subrange(a + 1, n as int));
        a = a + 1;
    }
    s.substring_char(a, n)
}

/// An installer asset: a name ending in `.exe` that mentions `setup` or
/// `install` (in any case).
pub open spec fn installer_name_of(name: Seq<char>) -> bool {
    let l = lowercase_of(name);
    ends_with(l, ".exe"@) && (has_sub(l, "setup"@) || has_sub(l, "install"@))
}

fn is_installer_name(name: &str) -> (r: bool)
    ensures
        r == installer_name_of(name@),
{
    let l = to_lower(name);
    ends_with_str(l.as_str(), ".exe") && (contains_str(l.as_str(), "setup") || contains_str(
        l.as_str(),
        "install",
    ))
}

/// The first asset that is an installer and has a URL: (URL, name).
pub open spec fn installer_asset_of(assets: Seq<ReleaseAsset>) -> Option<(Seq<char>, Seq<char>)>
    decreases assets.len(),
{
    if assets.len() == 0 {
        None
    } else {
        match (assets[0].name, assets[0].url) {
            (Some(n), Some(u)) => if installer_name_of(n@) {
                Some((u@, n@))
            } else {
                installer_asset_of(assets.drop_first())
            },
            _ => installer_asset_of(assets.drop_first()),
        }
    }
}

fn installer_asset(assets: &Vec<ReleaseAsset>) -> (r: Option<(String, String)>)
    ensures
        match r {
            Some(p) => installer_asset_of(assets@) == Some((p.0@, p.1@)),
            None => installer_asset_of(assets@) is None,
        },
{
    let mut i: usize = 0;
    assert(assets@.skip(0) =~= assets@);
    while i < assets.len()
        invariant
            i <= assets@.len(),
            installer_asset_of(assets@.skip(i as int)) == installer_asset_of(assets@),
        decreases assets@.len() - i,
    {
        proof {
            assert(assets@.skip(i as int)[0] == assets@[i as int]);
            assert(assets@.skip(i as int).drop_first() =~= assets@.skip(i + 1));
        }
        let a = &assets[i];
        match (&a.name, &a.url) {
            (Some(n), Some(u)) => {
                if is_installer_name(n.as_str()) {
                    return Some((u.clone(), n.clone()));
                }
            },
            _ => {},
        }
        i = i + 1;
    }
    assert(assets@.skip(assets@.len() as int) =~= Seq::<ReleaseAsset>::empty());
    None
}

pub open spec fn text_opt(o: Option<String>) -> Option<Seq<char>> {
    match o {
        Some(s) => Some(s@),
        None => None,
    }
}

pub open spec fn text_or_empty(o: Option<String>) -> Seq<char> {
    match o {
        Some(s) => s@,
        None => Seq::empty(),
    }
}

/// The latest version named by a release: its tag without leading `v`s.
pub open spec fn latest_of(rel: LatestRelease) -> Seq<char> {
    trim_v_of(text_or_empty(rel.tag_name))
}

/// Whether the release is an update: a version that is named, and greater
/// than the running one.
pub open spec fn has_update_of(latest: Seq<char>, current: Seq<char>) -> bool {
    latest.len() > 0 && version_gt_of(latest, current, semver_gt_of(latest, current))
}

/// Compares the latest release with the running version `current`.
pub fn check_update(current: &str, release: &LatestRelease) -> (r: UpdateInfo)
    ensures
        r.current@ == current@,
        r.latest@ == latest_of(*release),
        r.has_update == has_update_of(latest_of(*release), current@),
        dotted_triple(latest_of(*release)) && dotted_triple(current@) ==> r.has_update == (
        latest_of(*release).len() > 0 && version_gt_of(
            latest_of(*release),
            current@,
            triples_gt_of(latest_of(*release), current@),
        )),
        r.notes@ == text_or_empty(release.body),
        r.html_url@ == text_or_empty(release.html_url),
        match release.assets {
            Some(a) => match installer_asset_of(a@) {
                Some(p) => text_opt(r.download_url) == Some(p.0) && text_opt(r.asset_name) == Some(p.1),
                None => r.download_url is None && r.asset_name is None,
            },
            None => r.download_url is None && r.asset_name is None,
        },
{
    let tag = match &release.tag_name {
        Some(t) => t.as_str(),
        None => "",
    };
    proof {
        reveal_strlit("");
    }
    let latest = trim_v(tag);
    let has_update = latest.unicode_len() > 0 && version_gt(latest, current);
    let notes = match &release.body {
        Some(b) => b.clone(),
        None => String::new(),
    };
    let html_url = match &release.html_url {
        Some(h) => h.clone(),
        None => String::new(),
    };
    let (download_url, asset_name) = match &release.assets {
        Some(a) => match installer_asset(a) {
            Some((u, n)) => (Some(u), Some(n)),
            None => (None, None),
        },
        None => (None, None),
    };
    UpdateInfo {
        current: String::from_str(current),
        latest: String::from_str(latest),
        has_update,
        notes,
        html_url,
        download_url,
        asset_name,
    }
}

/// `Path::file_name`: the last component of a path, where it is a name.
pub uninterp spec fn file_name_of(p: Seq<char>) -> Option<Seq<char>>;

/// Calls `Path::file_name` on `p`; its result is named and not stated.
#[verifier::external_body]
fn file_name(p: &str) -> (r: Option<String>)
    ensures
        match r {
            Some(s) => file_name_of(p@) == Some(s@),
            None => file_name_of(p@) is None,
        },
{
    std::path::Path::new(p).file_name().map(|s| s.to_string_lossy().to_string())
}

/// Where a downloaded installer is kept: the cache, under the last
/// component of the asset's name (`pvm-setup.exe` where it has none), so
/// that the name cannot lead elsewhere.
pub fn installer_path(asset_name: &str, paths: &Paths) -> (r: String)
    ensures
        r@ == join_of(
            join_of(paths.root@, "cache"@),
            match file_name_of(asset_name@) {
                Some(f) => f,
                None => "pvm-setup.exe"@,
            },
        ),
{
    let c = paths.cache();
    let f = match file_name(asset_name) {
        Some(f) => f,
        None => String::from_str("pvm-setup.exe"),
    };
    join(c.as_str(), f.as_str())
}

/// What to do after attempt `attempt` (from 0) to reach the release failed
/// with `msg`: retry a gateway error or a timeout up to twice, waiting
/// 400 ms more each time; else stop.
pub fn check_fetch_step(msg: &str, attempt: u32) -> (r: crate::net::FetchStep)
    ensures
        r == (if crate::net::retriable_of(msg@) && attempt < 2 {
            crate::net::FetchStep::Retry((400 * (attempt + 1)) as u64)
        } else {
            crate::net::FetchStep::GiveUp
        }),
{
    if crate::net::retriable(msg) && attempt < 2 {
        crate::net::FetchStep::Retry(400 * (attempt as u64 + 1))
    } else {
        crate::net::FetchStep::GiveUp
    }
}

/// The error once the release could not be reached, with the last failure.
pub fn check_failed(last: &str) -> (r: PvmError)
    ensures
        r@ == ErrView::Http(
            "检查更新失败（GitHub API 不可达，可稍后重试或去 Releases 页手动查看）: "@ + last@,
        ),
{
    PvmError::Http(cat("检查更新失败（GitHub API 不可达，可稍后重试或去 Releases 页手动查看）: ", last))
}

/// The installer could not be started.
pub fn start_failed(reason: &str) -> (r: PvmError)
    ensures
        r@ == ErrView::Http("启动安装器失败: "@ + reason@),
{
    PvmError::Http(cat("启动安装器失败: ", reason))
}

} // verus!
