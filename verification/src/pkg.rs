//! Packages of any interpreter through `python -m pip`: the command lines
//! for listing, installing, upgrading, removing, showing and freezing, and
//! what their output means. Running the commands is the caller's part.
use crate::error::{rv, ErrView, PvmError};
use crate::text::{cat, trim, trim_str};
use vstd::prelude::*;

verus! {

/// An installed package.
pub struct Package {
    pub name: String,
    pub version: String,
}

/// A package with a newer release.
pub struct Outdated {
    pub name: String,
    pub version: String,
    pub latest_version: String,
}

/// A pip run: the interpreter, its arguments (starting with `-m pip`), the
/// variables set in its environment, and the name used in messages.
pub struct PipCommand {
    pub program: String,
    pub args: Vec<String>,
    pub env: Vec<(String, String)>,
    pub label: String,
}

pub open spec fn string_views(v: Seq<String>) -> Seq<Seq<char>> {
    v.map_values(|s: String| s@)
}

pub open spec fn pair_views(v: Seq<(String, String)>) -> Seq<(Seq<char>, Seq<char>)> {
    v.map_values(|p: (String, String)| (p.0@, p.1@))
}

/// The environment of every pip run: UTF-8 mode and UTF-8 standard streams,
/// so that output in any language reads back as UTF-8.
pub open spec fn pip_env_of() -> Seq<(Seq<char>, Seq<char>)> {
    seq![("PYTHONUTF8"@, "1"@), ("PYTHONIOENCODING"@, "utf-8"@)]
}

pub open spec fn command_is(c: PipCommand, py: Seq<char>, rest: Seq<Seq<char>>, label: Seq<char>) -> bool {
    &&& c.program@ == py
    &&& string_views(c.args@) == seq!["-m"@, "pip"@] + rest
    &&& pair_views(c.env@) == pip_env_of()
    &&& c.label@ == label
}

/// The variables that every pip run sets: `PYTHONUTF8=1` and
/// `PYTHONIOENCODING=utf-8`.
pub fn pip_env() -> (r: Vec<(String, String)>)
    ensures
        pair_views(r@) == pip_env_of(),
{
    let mut v: Vec<(String, String)> = Vec::new();
    v.push((String::from_str("PYTHONUTF8"), String::from_str("1")));
    v.push((String::from_str("PYTHONIOENCODING"), String::from_str("utf-8")));
    assert(pair_views(v@) =~= pip_env_of());
    v
}

fn pip_args() -> (r: Vec<String>)
    ensures
        string_views(r@) == seq!["-m"@, "pip"@],
{
    let mut v: Vec<String> = Vec::new();
    v.push(String::from_str("-m"));
    v.push(String::from_str("pip"));
    assert(string_views(v@) =~= seq!["-m"@, "pip"@]);
    v
}

fn push_arg(v: &mut Vec<String>, a: &str)
    ensures
        string_views(final(v)@) == string_views(old(v)@).push(a@),
{
    v.push(String::from_str(a));
    assert(string_views(v@) =~= string_views(old(v)@).push(a@));
}

/// `pip list --format=json --disable-pip-version-check`.
pub fn list_packages(py: &str) -> (r: PipCommand)
    ensures
        command_is(r, py@, seq!["list"@, "--format=json"@, "--disable-pip-version-check"@], "pip list"@),
{
    let mut a = pip_args();
    push_arg(&mut a, "list");
    push_arg(&mut a, "--format=json");
    push_arg(&mut a, "--disable-pip-version-check");
    assert(string_views(a@) =~= seq!["-m"@, "pip"@] + seq![
        "list"@,
        "--format=json"@,
        "--disable-pip-version-check"@,
    ]);
    PipCommand { program: String::from_str(py), args: a, env: pip_env(), label: String::from_str("pip list") }
}

/// `pip list --outdated --format=json --disable-pip-version-check`.
pub fn list_outdated(py: &str) -> (r: PipCommand)
    ensures
        command_is(
            r,
            py@,
            seq!["list"@, "--outdated"@, "--format=json"@, "--disable-pip-version-check"@],
            "pip list --outdated"@,
        ),
{
    let mut a = pip_args();
    push_arg(&mut a, "list");
    push_arg(&mut a, "--outdated");
    push_arg(&mut a, "--format=json");
    push_arg(&mut a, "--disable-pip-version-check");
    assert(string_views(a@) =~= seq!["-m"@, "pip"@] + seq![
        "list"@,
        "--outdated"@,
        "--format=json"@,
        "--disable-pip-version-check"@,
    ]);
    PipCommand {
        program: String::from_str(py),
        args: a,
        env: pip_env(),
        label: String::from_str("pip list --outdated"),
    }
}

/// The optional parts of an install: `--upgrade`, then `-i <mirror>`.
pub open spec fn install_rest_of(spec: Seq<char>, mirror_url: Option<Seq<char>>, upgrade: bool) -> Seq<
    Seq<char>,
> {
    seq!["install"@] + (if upgrade {
        seq!["--upgrade"@]
    } else {
        Seq::empty()
    }) + (match mirror_url {
        Some(m) => seq!["-i"@, m],
        None => Seq::empty(),
    }) + seq![spec]
}

pub open spec fn opt_ref(o: Option<&str>) -> Option<Seq<char>> {
    match o {
        Some(s) => Some(s@),
        None => None,
    }
}

/// Installs or upgrades one package (`upgrade` adds `--upgrade`; a mirror
/// adds `-i <url>`).
pub fn install(py: &str, spec: &str, mirror_url: Option<&str>, upgrade: bool) -> (r: PipCommand)
    ensures
        command_is(r, py@, install_rest_of(spec@, opt_ref(mirror_url), upgrade), "pip install"@),
{
    let mut a = pip_args();
    let ghost base = string_views(a@);
    push_arg(&mut a, "install");
    let ghost s1 = string_views(a@);
    if upgrade {
        push_arg(&mut a, "--upgrade");
    }
    let ghost s2 = string_views(a@);
    match mirror_url {
        Some(m) => {
            push_arg(&mut a, "-i");
            push_arg(&mut a, m);
        },
        None => {},
    }
    let ghost s3 = string_views(a@);
    push_arg(&mut a, spec);
    proof {
        assert(s2 =~= s1 + (if upgrade {
            seq!["--upgrade"@]
        } else {
            Seq::empty()
        }));
        assert(s3 =~= s2 + (match opt_ref(mirror_url) {
            Some(m) => seq!["-i"@, m],
            None => Seq::empty(),
        }));
        assert(string_views(a@) =~= seq!["-m"@, "pip"@] + install_rest_of(
            spec@,
            opt_ref(mirror_url),
            upgrade,
        ));
    }
    PipCommand { program: String::from_str(py), args: a, env: pip_env(), label: String::from_str("pip install") }
}

/// `pip uninstall -y <name>`.
pub fn uninstall(py: &str, name: &str) -> (r: PipCommand)
    ensures
        command_is(r, py@, seq!["uninstall"@, "-y"@, name@], "pip uninstall"@),
{
    let mut a = pip_args();
    push_arg(&mut a, "uninstall");
    push_arg(&mut a, "-y");
    push_arg(&mut a, name);
    assert(string_views(a@) =~= seq!["-m"@, "pip"@] + seq!["uninstall"@, "-y"@, name@]);
    PipCommand { program: String::from_str(py), args: a, env: pip_env(), label: String::from_str("pip uninstall") }
}

/// `pip show <name>`.
pub fn show(py: &str, name: &str) -> (r: PipCommand)
    ensures
        command_is(r, py@, seq!["show"@, name@], "pip show"@),
{
    let mut a = pip_args();
    push_arg(&mut a, "show");
    push_arg(&mut a, name);
    assert(string_views(a@) =~= seq!["-m"@, "pip"@] + seq!["show"@, name@]);
    PipCommand { program: String::from_str(py), args: a, env: pip_env(), label: String::from_str("pip show") }
}

/// `pip freeze`.
pub fn freeze(py: &str) -> (r: PipCommand)
    ensures
        command_is(r, py@, seq!["freeze"@], "pip freeze"@),
{
    let mut a = pip_args();
    push_arg(&mut a, "freeze");
    assert(string_views(a@) =~= seq!["-m"@, "pip"@] + seq!["freeze"@]);
    PipCommand { program: String::from_str(py), args: a, env: pip_env(), label: String::from_str("pip freeze") }
}

/// `pip install -r <file>`, with `-i <mirror>` after it where given.
pub fn install_requirements(py: &str, req_file: &str, mirror_url: Option<&str>) -> (r: PipCommand)
    ensures
        command_is(
            r,
            py@,
            seq!["install"@, "-r"@, req_file@] + match opt_ref(mirror_url) {
                Some(m) => seq!["-i"@, m],
                None => Seq::empty(),
            },
            "pip install -r"@,
        ),
{
    let mut a = pip_args();
    push_arg(&mut a, "install");
    push_arg(&mut a, "-r");
    push_arg(&mut a, req_file);
    match mirror_url {
        Some(m) => {
            push_arg(&mut a, "-i");
            push_arg(&mut a, m);
        },
        None => {},
    }
    assert(string_views(a@) =~= seq!["-m"@, "pip"@] + (seq!["install"@, "-r"@, req_file@]
        + match opt_ref(mirror_url) {
        Some(m) => seq!["-i"@, m],
        None => Seq::empty(),
    }));
    PipCommand {
        program: String::from_str(py),
        args: a,
        env: pip_env(),
        label: String::from_str("pip install -r"),
    }
}

/// The outcome of an install or removal: on success the trimmed output
/// (the trimmed error stream where the output is empty); on failure the
/// trimmed error stream after `<label> 失败:`.
pub open spec fn capture_of(label: Seq<char>, success: bool, stdout: Seq<char>, stderr: Seq<char>) -> Result<
    Seq<char>,
    ErrView,
> {
    if success {
        Ok(
            if trim(stdout).len() == 0 {
                trim(stderr)
            } else {
                trim(stdout)
            },
        )
    } else {
        Err(ErrView::Config(label + " 失败:\n"@ + trim(stderr)))
    }
}

pub open spec fn text_result(r: Result<String, PvmError>) -> Result<Seq<char>, ErrView> {
    match r {
        Ok(s) => Ok(s@),
        Err(e) => Err(e@),
    }
}

pub fn capture_result(label: &str, success: bool, stdout: &str, stderr: &str) -> (r: Result<
    String,
    PvmError,
>)
    ensures
        text_result(r) == capture_of(label@, success, stdout@, stderr@),
{
    let out = trim_str(stdout);
    let err = trim_str(stderr);
    if success {
        if out.unicode_len() == 0 {
            Ok(String::from_str(err))
        } else {
            Ok(String::from_str(out))
        }
    } else {
        let mut m = cat(label, " 失败:\n");
        m.append(err);
        Err(PvmError::Config(m))
    }
}

/// The outcome of a query (`show`, `freeze`, `list`): the output as it is,
/// or the error stream after `<label> 失败: `.
pub open spec fn query_of(label: Seq<char>, success: bool, stdout: Seq<char>, stderr: Seq<char>) -> Result<
    Seq<char>,
    ErrView,
> {
    if success {
        Ok(stdout)
    } else {
        Err(ErrView::Config(label + " 失败: "@ + stderr))
    }
}

pub fn query_result(label: &str, success: bool, stdout: &str, stderr: &str) -> (r: Result<
    String,
    PvmError,
>)
    ensures
        text_result(r) == query_of(label@, success, stdout@, stderr@),
{
    if success {
        Ok(String::from_str(stdout))
    } else {
        let mut m = cat(label, " 失败: ");
        m.append(stderr);
        Err(PvmError::Config(m))
    }
}

/// pip could not be started: `运行 <what> 失败: <reason>`.
pub fn not_started(what: &str, reason: &str) -> (r: PvmError)
    ensures
        r@ == ErrView::Config("运行 "@ + what@ + " 失败: "@ + reason@),
{
    let mut m = cat("运行 ", what);
    m.append(" 失败: ");
    m.append(reason);
    PvmError::Config(m)
}

/// The packages of `pip list`: the entries that have both a name and a
/// version, in order.
pub open spec fn packages_of(es: Seq<(Option<String>, Option<String>)>) -> Seq<(Seq<char>, Seq<char>)>
    decreases es.len(),
{
    if es.len() == 0 {
        Seq::empty()
    } else {
        let rest = packages_of(es.drop_last());
        match es.last() {
            (Some(n), Some(v)) => rest.push((n@, v@)),
            _ => rest,
        }
    }
}

pub open spec fn package_views(v: Seq<Package>) -> Seq<(Seq<char>, Seq<char>)> {
    v.map_values(|p: Package| (p.name@, p.version@))
}

pub fn packages_from(entries: Vec<(Option<String>, Option<String>)>) -> (r: Vec<Package>)
    ensures
        package_views(r@) == packages_of(entries@),
{
    let ghost orig = entries@;
    let n = entries.len();
    let mut src = entries;
    let mut out: Vec<Package> = Vec::new();
    let mut i: usize = 0;
    while i < n
        invariant
            n == orig.len(),
            i <= n,
            src@ == orig.subrange(i as int, n as int),
            package_views(out@) == packages_of(orig.take(i as int)),
        decreases n - i,
    {
        let e = src.remove(0);
        proof {
            assert(e == orig[i as int]);
            assert(orig.take(i + 1).drop_last() =~= orig.take(i as int));
            assert(orig.take(i + 1).last() == orig[i as int]);
            assert(src@ =~= orig.subrange(i + 1, n as int));
        }
        match e {
            (Some(name), Some(version)) => {
                let ghost before = out@;
                let ghost pv = (name@, version@);
                out.push(Package { name, version });
                assert(package_views(out@) =~= package_views(before).push(pv));
            },
            _ => {},
        }
        i = i + 1;
    }
    assert(orig.take(n as int) =~= orig);
    out
}

/// The packages of `pip list --outdated`: the entries with a name, a version
/// and a latest version, in order.
pub open spec fn outdated_of(es: Seq<(Option<String>, Option<String>, Option<String>)>) -> Seq<
    (Seq<char>, Seq<char>, Seq<char>),
>
    decreases es.len(),
{
    if es.len() == 0 {
        Seq::empty()
    } else {
        let rest = outdated_of(es.drop_last());
        match es.last() {
            (Some(n), Some(v), Some(l)) => rest.push((n@, v@, l@)),
            _ => rest,
        }
    }
}

pub open spec fn outdated_views(v: Seq<Outdated>) -> Seq<(Seq<char>, Seq<char>, Seq<char>)> {
    v.map_values(|p: Outdated| (p.name@, p.version@, p.latest_version@))
}

pub fn outdated_from(entries: Vec<(Option<String>, Option<String>, Option<String>)>) -> (r: Vec<
    Outdated,
>)
    ensures
        outdated_views(r@) == outdated_of(entries@),
{
    let ghost orig = entries@;
    let n = entries.len();
    let mut src = entries;
    let mut out: Vec<Outdated> = Vec::new();
    let mut i: usize = 0;
    while i < n
        invariant
            n == orig.len(),
            i <= n,
            src@ == orig.subrange(i as int, n as int),
            outdated_views(out@) == outdated_of(orig.take(i as int)),
        decreases n - i,
    {
        let e = src.remove(0);
        proof {
            assert(e == orig[i as int]);
            assert(orig.take(i + 1).drop_last() =~= orig.take(i as int));
            assert(orig.take(i + 1).last() == orig[i as int]);
            assert(src@ =~= orig.subrange(i + 1, n as int));
        }
        match e {
            (Some(name), Some(version), Some(latest_version)) => {
                let ghost before = out@;
                let ghost pv = (name@, version@, latest_version@);
                out.push(Outdated { name, version, latest_version });
                assert(outdated_views(out@) =~= outdated_views(before).push(pv));
            },
            _ => {},
        }
        i = i + 1;
    }
    assert(orig.take(n as int) =~= orig);
    out
}

} // verus!
