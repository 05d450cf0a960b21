//! The decisions of the command line: what an install request means, which
//! release it takes, what happens to a version already installed, and the
//! texts that the commands print. The commands' I/O is the caller's part.
use crate::error::{rv, ErrView, PvmError};
use crate::paths::{join, join_of, Paths};
use crate::release::ReleaseVersion;
use crate::resolve::ResolvedFrom;
use crate::source_pbs::PbsFlavor;
use crate::text::{
    cat, lowercase_of, split_char, split_str, str_eq, to_lower, trim, trim_file, trim_file_str, trim_str,
    views,
};
use crate::version::{canonical_of, selector_ft_of, selector_source_of, PythonVersion, Source, VersionSelector};
use vstd::prelude::*;

verus! {

/// An install names at least one version, and the full build only where
/// this program can unpack zstd archives.
pub open spec fn install_args_of(n_versions: nat, flavor: PbsFlavor, zstd_enabled: bool) -> Result<
    (),
    ErrView,
> {
    if n_versions == 0 {
        Err(ErrView::Config("请指定要安装的版本，例：pvm install 3.12"@))
    } else if flavor == PbsFlavor::PgoFull && !zstd_enabled {
        Err(
            ErrView::Usage(
                "本二进制未启用 zstd-full，无法安装 --flavor full（请改用默认 install_only）"@,
            ),
        )
    } else {
        Ok(())
    }
}

pub fn check_install_args(n_versions: usize, flavor: PbsFlavor, zstd_enabled: bool) -> (r: Result<
    (),
    PvmError,
>)
    ensures
        rv(r) == install_args_of(n_versions as nat, flavor, zstd_enabled),
{
    if n_versions == 0 {
        Err(PvmError::Config(String::from_str("请指定要安装的版本，例：pvm install 3.12")))
    } else if flavor == PbsFlavor::PgoFull && !zstd_enabled {
        Err(
            PvmError::Usage(
                String::from_str(
                    "本二进制未启用 zstd-full，无法安装 --flavor full（请改用默认 install_only）",
                ),
            ),
        )
    } else {
        Ok(())
    }
}

/// What one version of an install request resolves to: its source (the
/// selector's `@source`, else `--source`, else the default; a selector and
/// an option that disagree are refused) and whether a free-threaded build is
/// wanted (`--freethreaded` or a `t` suffix). `system` cannot be installed,
/// and python.org offers only default builds of the plain flavor.
pub open spec fn install_plan_of(
    sel: VersionSelector,
    cli_source: Option<Source>,
    default_source: Source,
    flavor: PbsFlavor,
    freethreaded: bool,
) -> Result<(Source, bool), ErrView> {
    if sel is System {
        Err(ErrView::Usage("不支持安装 system（system 指 PATH 上 pvm 之外的 Python）"@))
    } else {
        match (selector_source_of(sel), cli_source) {
            (Some(a), Some(b)) if a != b => Err(
                ErrView::Usage("选择符来源 @"@ + a.suffix_of() + " 与 --source "@ + b.cli_of() + " 冲突"@),
            ),
            _ => {
                let src = match selector_source_of(sel) {
                    Some(a) => a,
                    None => match cli_source {
                        Some(b) => b,
                        None => default_source,
                    },
                };
                let ft = freethreaded || selector_ft_of(sel);
                if src == Source::Org && (ft || flavor != PbsFlavor::InstallOnly) {
                    Err(ErrView::Usage("free-threaded / 非 install_only flavor 仅 standalone 来源支持"@))
                } else {
                    Ok((src, ft))
                }
            },
        }
    }
}

pub fn install_plan(
    sel: &VersionSelector,
    cli_source: Option<Source>,
    default_source: Source,
    flavor: PbsFlavor,
    freethreaded: bool,
) -> (r: Result<(Source, bool), PvmError>)
    ensures
        rv(r) == install_plan_of(*sel, cli_source, default_source, flavor, freethreaded),
{
    if sel.is_system() {
        return Err(
            PvmError::Usage(String::from_str("不支持安装 system（system 指 PATH 上 pvm 之外的 Python）")),
        );
    }
    let src = match (sel.source(), cli_source) {
        (Some(a), Some(b)) => {
            if a != b {
                let mut m = cat("选择符来源 @", a.id_suffix());
                m.append(" 与 --source ");
                m.append(b.cli_value());
                m.append(" 冲突");
                return Err(PvmError::Usage(m));
            }
            a
        },
        (Some(a), None) => a,
        (None, Some(b)) => b,
        (None, None) => default_source,
    };
    let ft = freethreaded || sel.freethreaded();
    if src == Source::Org && (ft || flavor != PbsFlavor::InstallOnly) {
        return Err(
            PvmError::Usage(
                String::from_str("free-threaded / 非 install_only flavor 仅 standalone 来源支持"),
            ),
        );
    }
    Ok((src, ft))
}

/// Whether a published release satisfies a selector (by its numbers only:
/// the source and threading are chosen apart).
pub open spec fn release_matches_of(sel: VersionSelector, ver: ReleaseVersion) -> bool {
    match sel {
        VersionSelector::Exact { ver: t, .. } => ver.major == t.0 && ver.minor == t.1 && ver.patch
            == t.2,
        VersionSelector::PartialMinor { major, minor, .. } => ver.major == major && ver.minor
            == minor,
        VersionSelector::PartialMajor { major, .. } => ver.major == major,
        VersionSelector::Latest { .. } => true,
        VersionSelector::Canonical(v) => ver.major == v.major && ver.minor == v.minor && ver.patch
            == v.patch,
        VersionSelector::System => false,
    }
}

/// A release answers a selector only with the numbers the selector names:
/// all three for an exact version or a canonical id (so
/// `cpython-3.12.7-standalone` installs 3.12.7, never 3.12.8), major and
/// minor for `x.y`, the major for `x`; `system` names no release.
pub proof fn lemma_release_match_meaning(sel: VersionSelector, r: ReleaseVersion)
    ensures
        sel matches VersionSelector::Exact { ver, .. } ==> (release_matches_of(sel, r) <==> (
        r.major == ver.0 && r.minor == ver.1 && r.patch == ver.2)),
        sel matches VersionSelector::Canonical(v) ==> (release_matches_of(sel, r) <==> (r.major
            == v.major && r.minor == v.minor && r.patch == v.patch)),
        sel matches VersionSelector::PartialMinor { major, minor, .. } ==> (release_matches_of(
            sel,
            r,
        ) <==> (r.major == major && r.minor == minor)),
        sel matches VersionSelector::PartialMajor { major, .. } ==> (release_matches_of(sel, r)
            <==> r.major == major),
        sel is Latest ==> release_matches_of(sel, r),
        sel is System ==> !release_matches_of(sel, r),
{
}

/// The release picked for a canonical id is the id's own release, and the
/// version installed from it (in the id's source and build) is the id.
pub proof fn lemma_canonical_install_is_exact(v: PythonVersion, releases: Seq<ReleaseVersion>, i: int)
    requires
        0 <= i < releases.len(),
        release_matches_of(VersionSelector::Canonical(v), releases[i]),
    ensures
        releases[i].major == v.major && releases[i].minor == v.minor && releases[i].patch == v.patch,
        (PythonVersion {
            source: v.source,
            major: releases[i].major as u32,
            minor: releases[i].minor as u32,
            patch: releases[i].patch as u32,
            freethreaded: v.freethreaded,
        }) == v,
{
    lemma_release_match_meaning(VersionSelector::Canonical(v), releases[i]);
}

pub fn sel_matches_ver(sel: &VersionSelector, ver: &ReleaseVersion) -> (r: bool)
    ensures
        r == release_matches_of(*sel, *ver),
{
    match sel {
        VersionSelector::Exact { ver: t, .. } => ver.major == t.0 as u64 && ver.minor == t.1 as u64
            && ver.patch == t.2 as u64,
        VersionSelector::PartialMinor { major, minor, .. } => ver.major == *major as u64
            && ver.minor == *minor as u64,
        VersionSelector::PartialMajor { major, .. } => ver.major == *major as u64,
        VersionSelector::Latest { .. } => true,
        VersionSelector::Canonical(v) => ver.major == v.major as u64 && ver.minor == v.minor as u64
            && ver.patch == v.patch as u64,
        VersionSelector::System => false,
    }
}

/// The first of the releases (newest first) that a selector takes.
pub fn first_matching(sel: &VersionSelector, releases: &Vec<ReleaseVersion>) -> (r: Option<usize>)
    ensures
        match r {
            Some(i) => i < releases@.len() && release_matches_of(*sel, releases@[i as int]) && forall|
                k: int,
            | 0 <= k < i ==> !release_matches_of(*sel, #[trigger] releases@[k]),
            None => forall|k: int|
                0 <= k < releases@.len() ==> !release_matches_of(*sel, #[trigger] releases@[k]),
        },
{
    let mut i: usize = 0;
    while i < releases.len()
        invariant
            i <= releases@.len(),
            forall|k: int| 0 <= k < i ==> !release_matches_of(*sel, #[trigger] releases@[k]),
        decreases releases@.len() - i,
    {
        if sel_matches_ver(sel, &releases[i]) {
            return Some(i);
        }
        i = i + 1;
    }
    None
}

/// No release takes the selector.
pub fn release_not_found(sel_str: &str) -> (r: PvmError)
    ensures
        r@ == ErrView::VersionNotFound(sel_str@),
{
    PvmError::VersionNotFound(String::from_str(sel_str))
}

/// The version installed from a release (its numbers cut to 32 bits).
pub fn version_of_release(ver: &ReleaseVersion, source: Source, freethreaded: bool) -> (r:
    PythonVersion)
    ensures
        r == (PythonVersion {
            source,
            major: ver.major as u32,
            minor: ver.minor as u32,
            patch: ver.patch as u32,
            freethreaded,
        }),
{
    PythonVersion {
        source,
        major: ver.major as u32,
        minor: ver.minor as u32,
        patch: ver.patch as u32,
        freethreaded,
    }
}

/// What to do about a version that is to be installed.
#[derive(Clone, Copy, PartialEq, Eq, Debug, Structural)]
pub enum InstallAction {
    Install,
    /// Already installed, and `--skip-existing` was given.
    Skip,
}

/// A version already installed is skipped with `--skip-existing`,
/// reinstalled with `--force`, and refused otherwise.
pub open spec fn existing_of(v: PythonVersion, installed: bool, skip_existing: bool, force: bool) -> Result<
    InstallAction,
    ErrView,
> {
    if installed && skip_existing {
        Ok(InstallAction::Skip)
    } else if installed && !force {
        Err(
            ErrView::Config(
                canonical_of(v) + match v.source {
                    Source::Standalone => " 已安装（--force 重装 / --skip-existing 跳过）"@,
                    Source::Org => " 已安装"@,
                },
            ),
        )
    } else {
        Ok(InstallAction::Install)
    }
}

pub fn existing_decision(v: &PythonVersion, installed: bool, skip_existing: bool, force: bool) -> (r:
    Result<InstallAction, PvmError>)
    ensures
        rv(r) == existing_of(*v, installed, skip_existing, force),
{
    if installed && skip_existing {
        Ok(InstallAction::Skip)
    } else if installed && !force {
        let mut m = v.canonical();
        match v.source {
            Source::Standalone => m.append(" 已安装（--force 重装 / --skip-existing 跳过）"),
            Source::Org => m.append(" 已安装"),
        }
        Err(PvmError::Config(m))
    } else {
        Ok(InstallAction::Install)
    }
}

/// Where an effective version came from, as `pvm current` says it.
pub open spec fn from_label_of(from: ResolvedFrom) -> Seq<char> {
    match from {
        ResolvedFrom::Shell => "PVM_VERSION"@,
        ResolvedFrom::Local(p) => ".python-version ("@ + p@ + ")"@,
        ResolvedFrom::Global => "global"@,
    }
}

pub fn from_label(from: &ResolvedFrom) -> (r: String)
    ensures
        r@ == from_label_of(*from),
{
    match from {
        ResolvedFrom::Shell => String::from_str("PVM_VERSION"),
        ResolvedFrom::Local(p) => {
            let mut s = cat(".python-version (", p.as_str());
            s.append(")");
            s
        },
        ResolvedFrom::Global => String::from_str("global"),
    }
}

/// The line of `pvm current`.
pub fn current_line(v: &PythonVersion, from: &ResolvedFrom) -> (r: String)
    ensures
        r@ == canonical_of(*v) + "  （来源: "@ + from_label_of(*from) + "）"@,
{
    let mut s = v.canonical();
    s.append("  （来源: ");
    s.append(from_label(from).as_str());
    s.append("）");
    s
}

/// `PATH` for `pvm exec`: the interpreter's directory and its `Scripts`
/// before the old value.
pub fn exec_path(py_dir: &str, scripts: &str, old: &str) -> (r: String)
    ensures
        r@ == py_dir@ + ";"@ + scripts@ + ";"@ + old@,
{
    let mut s = cat(py_dir, ";");
    s.append(scripts);
    s.append(";");
    s.append(old);
    s
}

/// `pvm exec` without a command.
pub fn exec_missing_command() -> (r: PvmError)
    ensures
        r@ == ErrView::Config("exec 需要命令，例：pvm exec -- python -V"@),
{
    PvmError::Config(String::from_str("exec 需要命令，例：pvm exec -- python -V"))
}

/// The global version as its file holds it: without a leading byte-order
/// mark, trimmed, none where blank.
pub open spec fn global_text_of(raw: Option<Seq<char>>) -> Option<Seq<char>> {
    match raw {
        Some(r) => if trim_file(r).len() > 0 {
            Some(trim_file(r))
        } else {
            None
        },
        None => None,
    }
}

pub fn global_text(raw: Option<&str>) -> (r: Option<String>)
    ensures
        match r {
            Some(s) => global_text_of(
                match raw {
                    Some(x) => Some(x@),
                    None => None,
                },
            ) == Some(s@),
            None => global_text_of(
                match raw {
                    Some(x) => Some(x@),
                    None => None,
                },
            ) is None,
        },
{
    match raw {
        Some(x) => {
            let t = trim_file_str(x);
            if t.unicode_len() > 0 {
                Some(String::from_str(t))
            } else {
                None
            }
        },
        None => None,
    }
}

/// A line of `pvm list`: the id alone with `--bare`, else marked `*` where it
/// is the global version.
pub open spec fn list_line_of(v: PythonVersion, global: Option<Seq<char>>, bare: bool) -> Seq<char> {
    if bare {
        canonical_of(v)
    } else {
        (if global == Some(canonical_of(v)) {
            "*"@
        } else {
            " "@
        }) + " "@ + canonical_of(v)
    }
}

pub fn list_line(v: &PythonVersion, global: Option<&str>, bare: bool) -> (r: String)
    ensures
        r@ == list_line_of(
            *v,
            match global {
                Some(g) => Some(g@),
                None => None,
            },
            bare,
        ),
{
    let id = v.canonical();
    if bare {
        return id;
    }
    let is_global = match global {
        Some(g) => str_eq(g, id.as_str()),
        None => false,
    };
    let mut s = if is_global {
        String::from_str("*")
    } else {
        String::from_str(" ")
    };
    s.append(" ");
    s.append(id.as_str());
    s
}

/// Whether `PATH` holds the shims directory (trimmed, up to case).
pub open spec fn shims_in_path_of(path_var: Seq<char>, shims: Seq<char>) -> bool {
    exists|i: int|
        0 <= i < split_char(path_var, ';').len() && lowercase_of(
            trim(#[trigger] split_char(path_var, ';')[i]),
        ) == lowercase_of(shims)
}

pub fn shims_in_path(path_var: &str, shims: &str) -> (r: bool)
    ensures
        r == shims_in_path_of(path_var@, shims@),
{
    let want = to_lower(shims);
    let parts = split_str(path_var, ';');
    let ghost pv = split_char(path_var@, ';');
    let mut i: usize = 0;
    while i < parts.len()
        invariant
            views(parts@) == pv,
            pv == split_char(path_var@, ';'),
            want@ == lowercase_of(shims@),
            i <= parts@.len(),
            forall|k: int| 0 <= k < i ==> lowercase_of(trim(#[trigger] pv[k])) != lowercase_of(shims@),
        decreases parts@.len() - i,
    {
        let l = to_lower(trim_str(parts[i]));
        assert(parts@[i as int]@ == pv[i as int]);
        if str_eq(l.as_str(), want.as_str()) {
            return true;
        }
        i = i + 1;
    }
    false
}

/// The directories that `pvm init` creates, in order.
pub open spec fn init_dirs_of(root: Seq<char>) -> Seq<Seq<char>> {
    seq![
        join_of(root, "bin"@),
        join_of(root, "shims"@),
        join_of(root, "versions"@),
        join_of(root, "venvs"@),
        join_of(root, "cache"@),
        join_of(root, "logs"@),
        join_of(root, "backup"@),
    ]
}

pub open spec fn string_views(v: Seq<String>) -> Seq<Seq<char>> {
    v.map_values(|s: String| s@)
}

pub fn init_dirs(paths: &Paths) -> (r: Vec<String>)
    ensures
        string_views(r@) == init_dirs_of(paths.root@),
{
    let mut v: Vec<String> = Vec::new();
    v.push(paths.bin());
    v.push(paths.shims());
    v.push(paths.versions());
    v.push(paths.venvs());
    v.push(paths.cache());
    v.push(paths.logs());
    v.push(paths.backup());
    assert(string_views(v@) =~= init_dirs_of(paths.root@));
    v
}

/// The file the global version is first written to, then renamed from.
pub fn global_tmp_file(paths: &Paths) -> (r: String)
    ensures
        r@ == join_of(paths.root@, "version.tmp"@),
{
    join(paths.root.as_str(), "version.tmp")
}

/// The commands that set the session version in PowerShell and in cmd.exe.
pub fn session_commands(v: &PythonVersion) -> (r: (String, String))
    ensures
        r.0@ == "  PowerShell : $env:PVM_VERSION='"@ + canonical_of(*v) + "'"@,
        r.1@ == "  cmd.exe    : set PVM_VERSION="@ + canonical_of(*v),
{
    let id = v.canonical();
    let mut a = cat("  PowerShell : $env:PVM_VERSION='", id.as_str());
    a.append("'");
    let b = cat("  cmd.exe    : set PVM_VERSION=", id.as_str());
    (a, b)
}

} // verus!
