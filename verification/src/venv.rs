//! Virtual environments: where one is created, the `python -m venv`
//! arguments, the metadata written beside it, the activation hint, and the
//! order of the listing.
use crate::error::{rv, ErrView, PvmError};
use crate::paths::{join, join_of, venvs_of, version_dir_of, Paths};
use crate::text::{cat, lex_lt, lemma_lex_total, lemma_lex_transitive, str_lt};
use crate::version::{canonical_of, PythonVersion};
use vstd::prelude::*;

verus! {

/// What is recorded in `.pvm-venv.json` of a central venv.
pub struct VenvMeta {
    pub name: String,
    pub python_version: String,
    pub source: String,
    pub base_prefix: String,
    pub created_at: String,
}

/// Options of `venv create`.
pub struct VenvCreateOpts<'a> {
    pub name: &'a str,
    pub py_selector: Option<&'a str>,
    pub in_project: bool,
    pub path: Option<&'a str>,
    pub clear: bool,
    pub without_pip: bool,
    pub system_site_packages: bool,
    pub mirror: Option<&'a str>,
}

pub open spec fn venv_path_of(root: Seq<char>, name: Seq<char>) -> Seq<char> {
    join_of(venvs_of(root), name)
}

/// The directory of the central venv `name`.
pub fn venv_path(name: &str, paths: &Paths) -> (r: String)
    ensures
        r@ == venv_path_of(paths.root@, name@),
{
    let d = paths.venvs();
    join(d.as_str(), name)
}

/// Where a venv is created: `.venv` in the working directory for an
/// in-project venv, else the path given, else the central directory.
pub open spec fn venv_target_of(
    in_project: bool,
    cwd: Seq<char>,
    path: Option<Seq<char>>,
    name: Seq<char>,
    root: Seq<char>,
) -> Seq<char> {
    if in_project {
        join_of(cwd, ".venv"@)
    } else {
        match path {
            Some(p) => p,
            None => venv_path_of(root, name),
        }
    }
}

pub fn venv_target(opts: &VenvCreateOpts, cwd: &str, paths: &Paths) -> (r: String)
    ensures
        r@ == venv_target_of(
            opts.in_project,
            cwd@,
            match opts.path {
                Some(p) => Some(p@),
                None => None,
            },
            opts.name@,
            paths.root@,
        ),
{
    if opts.in_project {
        join(cwd, ".venv")
    } else {
        match opts.path {
            Some(p) => String::from_str(p),
            None => venv_path(opts.name, paths),
        }
    }
}

/// A target that exists and is not empty is refused unless `clear` is set.
pub open spec fn target_check_of(
    target: Seq<char>,
    exists: bool,
    nonempty: bool,
    clear: bool,
) -> Result<(), ErrView> {
    if exists && !clear && nonempty {
        Err(ErrView::Config("目标已存在且非空: "@ + target + "（用 --clear 覆盖）"@))
    } else {
        Ok(())
    }
}

pub fn check_target(target: &str, exists: bool, nonempty: bool, clear: bool) -> (r: Result<
    (),
    PvmError,
>)
    ensures
        rv(r) == target_check_of(target@, exists, nonempty, clear),
{
    if exists && !clear && nonempty {
        let mut m = cat("目标已存在且非空: ", target);
        m.append("（用 --clear 覆盖）");
        Err(PvmError::Config(m))
    } else {
        Ok(())
    }
}

/// Arguments to the base interpreter: `-m venv`, the chosen switches in
/// order, then the target.
pub open spec fn venv_args_of(
    clear: bool,
    without_pip: bool,
    system_site_packages: bool,
    target: Seq<char>,
) -> Seq<Seq<char>> {
    seq!["-m"@, "venv"@] + (if clear {
        seq!["--clear"@]
    } else {
        Seq::empty()
    }) + (if without_pip {
        seq!["--without-pip"@]
    } else {
        Seq::empty()
    }) + (if system_site_packages {
        seq!["--system-site-packages"@]
    } else {
        Seq::empty()
    }) + seq![target]
}

/// The arguments of `python -m venv`: `-m venv`, then each switch exactly
/// when it is asked for (`--clear`, `--without-pip`,
/// `--system-site-packages`), each at most once, then the target last.
pub proof fn lemma_venv_args_meaning(clear: bool, without_pip: bool, system_site_packages: bool, target: Seq<char>)
    ensures
        ({
            let a = venv_args_of(clear, without_pip, system_site_packages, target);
            let sw = a.subrange(2, a.len() - 1);
            &&& a.len() >= 3
            &&& a[0] == "-m"@ && a[1] == "venv"@
            &&& a.last() == target
            &&& (sw.contains("--clear"@) <==> clear)
            &&& (sw.contains("--without-pip"@) <==> without_pip)
            &&& (sw.contains("--system-site-packages"@) <==> system_site_packages)
            &&& sw.len() == (if clear { 1int } else { 0 }) + (if without_pip { 1int } else { 0 }) + (
            if system_site_packages {
                1int
            } else {
                0
            })
        }),
{
    reveal_strlit("-m");
    reveal_strlit("venv");
    reveal_strlit("--clear");
    reveal_strlit("--without-pip");
    reveal_strlit("--system-site-packages");
    let c: Seq<Seq<char>> = if clear { seq!["--clear"@] } else { Seq::empty() };
    let w: Seq<Seq<char>> = if without_pip { seq!["--without-pip"@] } else { Seq::empty() };
    let y: Seq<Seq<char>> = if system_site_packages {
        seq!["--system-site-packages"@]
    } else {
        Seq::empty()
    };
    let a = venv_args_of(clear, without_pip, system_site_packages, target);
    assert(a =~= seq!["-m"@, "venv"@] + c + w + y + seq![target]);
    let sw = a.subrange(2, a.len() - 1);
    assert(sw =~= c + w + y);
    assert("--clear"@.len() == 7 && "--without-pip"@.len() == 13 && "--system-site-packages"@.len() == 22);
    assert(sw.contains("--clear"@) ==> clear) by {
        if sw.contains("--clear"@) {
            let k = choose|k: int| 0 <= k < sw.len() && sw[k] == "--clear"@;
            assert(sw[k].len() == 7);
        }
    }
    assert(sw.contains("--without-pip"@) ==> without_pip) by {
        if sw.contains("--without-pip"@) {
            let k = choose|k: int| 0 <= k < sw.len() && sw[k] == "--without-pip"@;
            assert(sw[k].len() == 13);
        }
    }
    assert(sw.contains("--system-site-packages"@) ==> system_site_packages) by {
        if sw.contains("--system-site-packages"@) {
            let k = choose|k: int| 0 <= k < sw.len() && sw[k] == "--system-site-packages"@;
            assert(sw[k].len() == 22);
        }
    }
    if clear {
        assert(sw[0] == "--clear"@);
    }
    if without_pip {
        let k: int = if clear { 1 } else { 0 };
        assert(sw[k] == "--without-pip"@);
    }
    if system_site_packages {
        let k: int = (if clear { 1int } else { 0 }) + (if without_pip { 1int } else { 0 });
        assert(sw[k] == "--system-site-packages"@);
    }
}

pub open spec fn string_views(v: Seq<String>) -> Seq<Seq<char>> {
    v.map_values(|s: String| s@)
}

pub fn venv_args(clear: bool, without_pip: bool, system_site_packages: bool, target: &str) -> (r: Vec<
    String,
>)
    ensures
        string_views(r@) == venv_args_of(clear, without_pip, system_site_packages, target@),
{
    let mut v: Vec<String> = Vec::new();
    v.push(String::from_str("-m"));
    v.push(String::from_str("venv"));
    let ghost a = string_views(v@);
    if clear {
        v.push(String::from_str("--clear"));
    }
    let ghost b = string_views(v@);
    if without_pip {
        v.push(String::from_str("--without-pip"));
    }
    let ghost c = string_views(v@);
    if system_site_packages {
        v.push(String::from_str("--system-site-packages"));
    }
    let ghost d = string_views(v@);
    v.push(String::from_str(target));
    proof {
        assert(a =~= seq!["-m"@, "venv"@]);
        assert(b =~= a + (if clear {
            seq!["--clear"@]
        } else {
            Seq::empty()
        }));
        assert(c =~= b + (if without_pip {
            seq!["--without-pip"@]
        } else {
            Seq::empty()
        }));
        assert(d =~= c + (if system_site_packages {
            seq!["--system-site-packages"@]
        } else {
            Seq::empty()
        }));
        assert(string_views(v@) =~= d + seq![target@]);
    }
    v
}

/// The metadata of a new central venv.
pub fn venv_meta(name: &str, v: &PythonVersion, paths: &Paths, created_at: &str) -> (r: VenvMeta)
    ensures
        r.name@ == name@,
        r.python_version@ == canonical_of(*v),
        r.source@ == v.source.suffix_of(),
        r.base_prefix@ == version_dir_of(paths.root@, *v),
        r.created_at@ == created_at@,
{
    VenvMeta {
        name: String::from_str(name),
        python_version: v.canonical(),
        source: String::from_str(v.source.id_suffix()),
        base_prefix: paths.version_dir(v),
        created_at: String::from_str(created_at),
    }
}

/// The entry listed for a venv directory without readable metadata.
pub fn unknown_venv_meta(name: &str) -> (r: VenvMeta)
    ensures
        r.name@ == name@,
        r.python_version@ == "(未知)"@,
        r.source@ == "(未知)"@,
        r.base_prefix@ == Seq::<char>::empty(),
        r.created_at@ == Seq::<char>::empty(),
{
    VenvMeta {
        name: String::from_str(name),
        python_version: String::from_str("(未知)"),
        source: String::from_str("(未知)"),
        base_prefix: String::new(),
        created_at: String::new(),
    }
}

/// The venvs in ascending order of name (a stable sort).
pub open spec fn sorted_by_name(s: Seq<VenvMeta>) -> bool {
    forall|i: int, j: int| 0 <= i < j < s.len() ==> !lex_lt(#[trigger] s[j].name@, #[trigger] s[i].name@)
}

pub fn sort_by_name(v: Vec<VenvMeta>) -> (r: Vec<VenvMeta>)
    ensures
        r@.to_multiset() == v@.to_multiset(),
        sorted_by_name(r@),
        forall|i: int, j: int|
            0 <= i < j < r@.len() && r@[i].name@ == r@[j].name@ ==> exists|a: int, b: int|
                0 <= a < b < v@.len() && #[trigger] v@[a] == r@[i] && #[trigger] v@[b] == r@[j],
{
    let mut src = v;
    let ghost orig = src@;
    let mut out: Vec<VenvMeta> = Vec::new();
    let ghost mut idx: Seq<int> = Seq::empty();
    // move the items out in order, inserting each after every name not above it
    let n = src.len();
    let mut i: usize = 0;
    assert(out@ =~= orig.subrange(0, 0));
    while i < n
        invariant
            n == orig.len(),
            i <= n,
            src@ == orig.subrange(i as int, n as int),
            out@.to_multiset() == orig.subrange(0, i as int).to_multiset(),
            sorted_by_name(out@),
            idx.len() == out@.len(),
            forall|k: int| 0 <= k < out@.len() ==> 0 <= #[trigger] idx[k] < i && out@[k] == orig[idx[k]],
            forall|p: int, q: int|
                0 <= p < q < out@.len() && out@[p].name@ == out@[q].name@ ==> #[trigger] idx[p]
                    < #[trigger] idx[q],
        decreases n - i,
    {
        let x = src.remove(0);
        proof {
            assert(x == orig[i as int]);
        }
        let mut j: usize = 0;
        while j < out.len() && !str_lt(x.name.as_str(), out[j].name.as_str())
            invariant
                j <= out@.len(),
                forall|k: int| 0 <= k < j ==> !lex_lt(x.name@, #[trigger] out@[k].name@),
            decreases out@.len() - j,
        {
            j = j + 1;
        }
        let ghost before = out@;
        let ghost old_idx = idx;
        out.insert(j, x);
        proof {
            idx = idx.insert(j as int, i as int);
            assert forall|k: int| 0 <= k < out@.len() implies 0 <= #[trigger] idx[k] < i + 1
                && out@[k] == orig[idx[k]] by {
                if k < j {
                    assert(out@[k] == before[k] && idx[k] == old_idx[k]);
                } else if k > j {
                    assert(out@[k] == before[k - 1] && idx[k] == old_idx[k - 1]);
                }
            }
            vstd::seq_lib::to_multiset_insert(before, j as int, x);
            vstd::seq_lib::to_multiset_build(orig.subrange(0, i as int), x);
            assert(orig.subrange(0, i + 1) =~= orig.subrange(0, i as int).push(x));
            assert(src@ =~= orig.subrange(i + 1, n as int));
            assert forall|p: int, q: int| 0 <= p < q < out@.len() implies !lex_lt(
                #[trigger] out@[q].name@,
                #[trigger] out@[p].name@,
            ) by {
                let jj = j as int;
                if q < jj {
                    assert(out@[p] == before[p] && out@[q] == before[q]);
                } else if q == jj {
                    assert(out@[p] == before[p]);
                    lemma_lex_total(x.name@, before[p].name@);
                } else if p == jj {
                    assert(out@[q] == before[q - 1]);
                    assert(lex_lt(x.name@, before[jj].name@));
                    if q - 1 > jj {
                        lemma_lex_total(before[q - 1].name@, before[jj].name@);
                        if lex_lt(before[q - 1].name@, x.name@) {
                            lemma_lex_transitive(before[q - 1].name@, x.name@, before[jj].name@);
                        }
                    }
                    lemma_lex_total(before[q - 1].name@, x.name@);
                } else if p > jj {
                    assert(out@[p] == before[p - 1] && out@[q] == before[q - 1]);
                } else {
                    assert(out@[p] == before[p] && out@[q] == before[q - 1]);
                }
            }
            let jj = j as int;
            assert forall|p: int, q: int|
                0 <= p < q < out@.len() && out@[p].name@ == out@[q].name@ implies #[trigger] idx[p]
                < #[trigger] idx[q] by {
                if q < jj {
                    assert(out@[p] == before[p] && out@[q] == before[q]);
                    assert(idx[p] == old_idx[p] && idx[q] == old_idx[q]);
                } else if q == jj {
                    assert(idx[p] == old_idx[p] && idx[p] < i);
                } else if p == jj {
                    assert(out@[q] == before[q - 1]);
                    assert(lex_lt(x.name@, before[jj].name@));
                    if q - 1 > jj {
                        assert(!lex_lt(before[q - 1].name@, before[jj].name@));
                    }
                } else if p > jj {
                    assert(out@[p] == before[p - 1] && out@[q] == before[q - 1]);
                    assert(idx[p] == old_idx[p - 1] && idx[q] == old_idx[q - 1]);
                } else {
                    assert(out@[p] == before[p] && out@[q] == before[q - 1]);
                    assert(idx[p] == old_idx[p] && idx[q] == old_idx[q - 1]);
                }
            }
        }
        i = i + 1;
    }
    proof {
        assert(orig.subrange(0, n as int) =~= orig);
        assert forall|p: int, q: int|
            0 <= p < q < out@.len() && out@[p].name@ == out@[q].name@ implies exists|a: int, b: int|
            0 <= a < b < orig.len() && #[trigger] orig[a] == out@[p] && #[trigger] orig[b] == out@[q] by {
            assert(idx[p] < idx[q]);
            assert(orig[idx[p]] == out@[p] && orig[idx[q]] == out@[q]);
        }
    }
    out
}

/// `s` with every `\` turned into `/`.
pub open spec fn slashes_of(s: Seq<char>) -> Seq<char> {
    Seq::new(s.len(), |i: int| if s[i] == '\\' { '/' } else { s[i] })
}

fn forward_slashes(s: &str) -> (r: String)
    ensures
        r@ == slashes_of(s@),
{
    let n = s.unicode_len();
    let mut out = String::new();
    let mut i: usize = 0;
    let mut start: usize = 0;
    // copy runs of other characters whole, and `/` for each `\`
    while i < n
        invariant
            n == s@.len(),
            start <= i <= n,
            out@ + s@.subrange(start as int, i as int) == slashes_of(s@).subrange(0, i as int),
            forall|k: int| start <= k < i ==> s@[k] != '\\',
        decreases n - i,
    {
        if s.get_char(i) == '\\' {
            let run = s.substring_char(start, i);
            let ghost o = out@;
            out.append(run);
            out.append("/");
            proof {
                reveal_strlit("/");
            }
            assert(out@ =~= slashes_of(s@).subrange(0, i + 1)) by {
                assert(o + run@ =~= slashes_of(s@).subrange(0, i as int));
                assert(slashes_of(s@).subrange(0, i + 1) =~= slashes_of(s@).subrange(
                    0,
                    i as int,
                ).push('/'));
            }
            start = i + 1;
            assert(s@.subrange(start as int, start as int) =~= Seq::<char>::empty());
            assert(out@ + s@.subrange(start as int, start as int) =~= out@);
        } else {
            assert(out@ + s@.subrange(start as int, i + 1) =~= slashes_of(s@).subrange(0, i + 1))
                by {
                assert(s@.subrange(start as int, i + 1) =~= s@.subrange(start as int, i as int).push(
                    s@[i as int],
                ));
                assert(slashes_of(s@).subrange(0, i + 1) =~= slashes_of(s@).subrange(
                    0,
                    i as int,
                ).push(s@[i as int]));
            }
        }
        i = i + 1;
    }
    let run = s.substring_char(start, n);
    out.append(run);
    assert(slashes_of(s@).subrange(0, n as int) =~= slashes_of(s@));
    out
}

/// The lines printed after a venv is created: where it is, and how to
/// activate it in PowerShell, cmd.exe and Git Bash.
pub open spec fn activation_hint_of(venv: Seq<char>, ver: Seq<char>) -> Seq<char> {
    let s = join_of(venv, "Scripts"@);
    "已创建 venv（基于 "@ + ver + "）："@ + venv + "\n"@ + "激活方式：\n"@ + "  PowerShell : & '"@ + s
        + "\\Activate.ps1'\n"@ + "  cmd.exe    : "@ + s + "\\activate.bat\n"@
        + "  Git Bash   : source '"@ + slashes_of(s) + "/activate'\n"@
        + "  （PowerShell 若被执行策略拦截：Set-ExecutionPolicy -Scope Process -ExecutionPolicy Bypass）"@
}

pub fn activation_hint(venv: &str, ver: &str) -> (r: String)
    ensures
        r@ == activation_hint_of(venv@, ver@),
{
    let s = join(venv, "Scripts");
    let mut out = String::from_str("已创建 venv（基于 ");
    out.append(ver);
    out.append("）：");
    out.append(venv);
    out.append("\n");
    out.append("激活方式：\n");
    out.append("  PowerShell : & '");
    out.append(s.as_str());
    out.append("\\Activate.ps1'\n");
    out.append("  cmd.exe    : ");
    out.append(s.as_str());
    out.append("\\activate.bat\n");
    out.append("  Git Bash   : source '");
    out.append(forward_slashes(s.as_str()).as_str());
    out.append("/activate'\n");
    out.append(
        "  （PowerShell 若被执行策略拦截：Set-ExecutionPolicy -Scope Process -ExecutionPolicy Bypass）",
    );
    out
}


/// The interpreter of the chosen version is missing.
pub fn interpreter_missing(v: &PythonVersion) -> (r: PvmError)
    ensures
        r@ == ErrView::NotInstalled(canonical_of(*v)),
{
    PvmError::NotInstalled(v.canonical())
}

/// `python -m venv` could not be started.
pub fn venv_not_started(reason: &str) -> (r: PvmError)
    ensures
        r@ == ErrView::Config("启动 python -m venv 失败: "@ + reason@),
{
    PvmError::Config(cat("启动 python -m venv 失败: ", reason))
}

/// A decimal numeral with its sign, as `Debug` writes an `i32`.
pub open spec fn signed_dec(n: i32) -> Seq<char> {
    if n < 0 {
        "-"@ + crate::text::dec((-(n as int)) as nat)
    } else {
        crate::text::dec(n as nat)
    }
}

fn signed_dec_string(n: i32) -> (r: String)
    ensures
        r@ == signed_dec(n),
{
    if n < 0 {
        let m: u64 = (-(n as i64)) as u64;
        cat("-", crate::text::dec_string(m).as_str())
    } else {
        crate::text::dec_string(n as u64)
    }
}

/// `python -m venv` failed: its exit status as `Debug` writes it
/// (`Some(<code>)`, or `None` where it was killed).
pub open spec fn venv_failed_of(code: Option<i32>) -> Seq<char> {
    "python -m venv 失败（退出码 "@ + match code {
        Some(c) => "Some("@ + signed_dec(c) + ")"@,
        None => "None"@,
    } + "）"@
}

pub fn venv_failed(code: Option<i32>) -> (r: PvmError)
    ensures
        r@ == ErrView::Config(venv_failed_of(code)),
{
    let mid = match code {
        Some(c) => {
            let mut t = String::from_str("Some(");
            t.append(signed_dec_string(c).as_str());
            t.append(")");
            t
        },
        None => String::from_str("None"),
    };
    let mut m = String::from_str("python -m venv 失败（退出码 ");
    m.append(mid.as_str());
    m.append("）");
    assert(m@ =~= venv_failed_of(code));
    PvmError::Config(m)
}

/// The metadata file of a central venv.
pub fn meta_file(venv: &str) -> (r: String)
    ensures
        r@ == join_of(venv@, ".pvm-venv.json"@),
{
    join(venv, ".pvm-venv.json")
}

/// No central venv of that name.
pub fn venv_missing(name: &str) -> (r: PvmError)
    ensures
        r@ == ErrView::Config("venv 不存在: "@ + name@),
{
    PvmError::Config(cat("venv 不存在: ", name))
}

/// The interpreter of a central venv: `<venv>\Scripts\python.exe`.
pub fn venv_python(name: &str, paths: &Paths) -> (r: String)
    ensures
        r@ == join_of(join_of(venv_path_of(paths.root@, name@), "Scripts"@), "python.exe"@),
{
    let v = venv_path(name, paths);
    let s = join(v.as_str(), "Scripts");
    join(s.as_str(), "python.exe")
}

/// The PowerShell line that activates a central venv.
pub fn activate_line(name: &str, paths: &Paths) -> (r: String)
    ensures
        r@ == "& '"@ + join_of(venv_path_of(paths.root@, name@), "Scripts"@) + "\\Activate.ps1'"@,
{
    let v = venv_path(name, paths);
    let s = join(v.as_str(), "Scripts");
    let mut out = cat("& '", s.as_str());
    out.append("\\Activate.ps1'");
    out
}

} // verus!
