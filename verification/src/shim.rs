//! Shims: the forwarders copied into the shims directory, the interpreter or
//! script that one forwards to, and the fallback through `PATH` where pvm
//! has no version for it. Running processes and copying files is the
//! caller's part.
use crate::error::{ErrView, PvmError};
use crate::paths::{join, join_of, python_exe_of, pythonw_exe_of, scripts_dir_of, Paths};
use crate::text::{
    cat, eq_ignore_case, eq_ignore_case_str, find_last, has_sub, contains_str, lemma_rfind_before,
    lowercase_of, rfind_char, str_eq, to_lower, views,
};
use crate::version::{canonical_of, PythonVersion};
use vstd::prelude::*;

verus! {

/// The file a shim named `stem` forwards to for version `v`: the
/// interpreter for `python` and `pythonw`, else `Scripts\<stem>.exe`.
pub open spec fn real_exe_of(root: Seq<char>, v: PythonVersion, stem: Seq<char>) -> Seq<char> {
    if stem == "python"@ {
        python_exe_of(root, v)
    } else if stem == "pythonw"@ {
        pythonw_exe_of(root, v)
    } else {
        join_of(scripts_dir_of(root, v), stem + ".exe"@)
    }
}

pub fn locate_real_exe(paths: &Paths, v: &PythonVersion, stem: &str) -> (r: Option<String>)
    ensures
        match r {
            Some(p) => p@ == real_exe_of(paths.root@, *v, stem@),
            None => false,
        },
{
    if str_eq(stem, "python") {
        Some(paths.python_exe(v))
    } else if str_eq(stem, "pythonw") {
        Some(paths.pythonw_exe(v))
    } else {
        let d = paths.scripts_dir(v);
        let name = cat(stem, ".exe");
        Some(join(d.as_str(), name.as_str()))
    }
}

/// `s` without the path separators at its end.
pub open spec fn trim_seps_of(s: Seq<char>) -> Seq<char>
    decreases s.len(),
{
    if s.len() > 0 && (s.last() == '\\' || s.last() == '/') {
        trim_seps_of(s.drop_last())
    } else {
        s
    }
}

fn trim_seps(s: &str) -> (r: &str)
    ensures
        r@ == trim_seps_of(s@),
{
    let n = s.unicode_len();
    let mut b: usize = n;
    assert(s@.subrange(0, n as int) =~= s@);
    while b > 0 && (s.get_char(b - 1) == '\\' || s.get_char(b - 1) == '/')
        invariant
            n == s@.len(),
            b <= n,
            trim_seps_of(s@.subrange(0, b as int)) == trim_seps_of(s@),
        decreases b,
    {
        assert(s@.subrange(0, b as int).drop_last() =~= s@.subrange(0, b - 1));
        b = b - 1;
    }
    s.substring_char(0, b)
}

/// Two directories named the same, compared without trailing separators and
/// without case (used where they cannot be resolved on disk).
pub open spec fn same_dir_text_of(a: Seq<char>, b: Seq<char>) -> bool {
    lowercase_of(trim_seps_of(a)) == lowercase_of(trim_seps_of(b))
}

pub fn same_dir_text(a: &str, b: &str) -> (r: bool)
    ensures
        r == same_dir_text_of(a@, b@),
{
    let x = to_lower(trim_seps(a));
    let y = to_lower(trim_seps(b));
    str_eq(x.as_str(), y.as_str())
}

/// A directory of the Microsoft Store's stub `python`.
pub open spec fn store_dir_of(dir: Seq<char>) -> bool {
    has_sub(lowercase_of(dir), "windowsapps"@)
}

/// Where to look, in order, for the system's `<stem>.exe` when pvm has no
/// version for a shim: each `PATH` directory that is not empty, not the
/// shims directory and not the Store's stub directory.
pub open spec fn fallback_candidates_of(
    stem: Seq<char>,
    dirs: Seq<Seq<char>>,
    is_shims: Seq<bool>,
) -> Seq<Seq<char>>
    decreases dirs.len(),
{
    if dirs.len() == 0 {
        Seq::empty()
    } else {
        let rest = fallback_candidates_of(stem, dirs.drop_last(), is_shims.drop_last());
        let d = dirs.last();
        if d.len() == 0 || is_shims.last() || store_dir_of(d) {
            rest
        } else {
            rest.push(join_of(d, stem + ".exe"@))
        }
    }
}

pub open spec fn string_views(v: Seq<String>) -> Seq<Seq<char>> {
    v.map_values(|s: String| s@)
}

/// The candidates of [`fallback_candidates_of`]; `is_shims[i]` says whether
/// `dirs[i]` is the shims directory.
pub fn fallback_candidates(stem: &str, dirs: &Vec<String>, is_shims: &Vec<bool>) -> (r: Vec<
    String,
>)
    requires
        dirs@.len() == is_shims@.len(),
    ensures
        string_views(r@) == fallback_candidates_of(stem@, string_views(dirs@), is_shims@),
{
    let ghost dv = string_views(dirs@);
    let exe = cat(stem, ".exe");
    let mut out: Vec<String> = Vec::new();
    let mut i: usize = 0;
    while i < dirs.len()
        invariant
            dv == string_views(dirs@),
            dirs@.len() == is_shims@.len(),
            exe@ == stem@ + ".exe"@,
            i <= dirs@.len(),
            string_views(out@) == fallback_candidates_of(stem@, dv.take(i as int), is_shims@.take(i as int)),
        decreases dirs@.len() - i,
    {
        let d = dirs[i].as_str();
        proof {
            assert(dv.take(i + 1).drop_last() =~= dv.take(i as int));
            assert(is_shims@.take(i + 1).drop_last() =~= is_shims@.take(i as int));
            assert(dv.take(i + 1).last() == d@);
            assert(is_shims@.take(i + 1).last() == is_shims@[i as int]);
        }
        let skip = if d.unicode_len() == 0 || is_shims[i] {
            true
        } else {
            let low = to_lower(d);
            contains_str(low.as_str(), "windowsapps")
        };
        if !skip {
            let ghost before = out@;
            let c = join(d, exe.as_str());
            out.push(c);
            assert(string_views(out@) =~= string_views(before).push(c@));
        }
        i = i + 1;
    }
    assert(dv.take(dirs@.len() as int) =~= dv);
    assert(is_shims@.take(dirs@.len() as int) =~= is_shims@);
    out
}

/// What a shim says when it has nowhere to forward to: the version that has
/// no such entry, or that no version is set.
pub open spec fn no_target_message_of(stem: Seq<char>, version: Option<Seq<char>>) -> Seq<char> {
    match version {
        Some(id) => "pvm: 入口 "@ + stem + " 不存在于 "@ + id + "，且 PATH 中也未找到系统 "@ + stem,
        None => "pvm: 未设置 Python 版本，且 PATH 中未找到系统 "@ + stem
            + "（可 `pvm global <版本>` 设全局，或把系统 Python 加入 PATH）"@,
    }
}

pub fn no_target_message(stem: &str, version: Option<&PythonVersion>) -> (r: String)
    ensures
        r@ == no_target_message_of(
            stem@,
            match version {
                Some(v) => Some(canonical_of(*v)),
                None => None,
            },
        ),
{
    match version {
        Some(v) => {
            let mut s = cat("pvm: 入口 ", stem);
            s.append(" 不存在于 ");
            s.append(v.canonical().as_str());
            s.append("，且 PATH 中也未找到系统 ");
            s.append(stem);
            s
        },
        None => {
            let mut s = cat("pvm: 未设置 Python 版本，且 PATH 中未找到系统 ", stem);
            s.append("（可 `pvm global <版本>` 设全局，或把系统 Python 加入 PATH）");
            s
        },
    }
}

/// Exit status of a shim that found nothing to run.
pub const EXIT_NOT_FOUND: i32 = 127;

/// Exit status of a shim whose target would not start.
pub const EXIT_NOT_STARTED: i32 = 126;

/// The exit status a shim passes on: the target's, or 1 where it has none
/// (killed by a signal).
pub fn passed_exit_code(code: Option<i32>) -> (r: i32)
    ensures
        r == match code {
            Some(c) => c,
            None => 1,
        },
{
    match code {
        Some(c) => c,
        None => 1,
    }
}

/// The four core shims: `python.exe`, `pip.exe` and `pip3.exe` from the
/// console template, `pythonw.exe` from the windowed one; each as
/// (destination, template).
pub open spec fn core_shims_of(root: Seq<char>) -> Seq<(Seq<char>, Seq<char>)> {
    let shims = join_of(root, "shims"@);
    let bin = join_of(root, "bin"@);
    let console = join_of(bin, "pvm-shim.exe"@);
    let gui = join_of(bin, "pvm-shimw.exe"@);
    seq![
        (join_of(shims, "python.exe"@), console),
        (join_of(shims, "pythonw.exe"@), gui),
        (join_of(shims, "pip.exe"@), console),
        (join_of(shims, "pip3.exe"@), console),
    ]
}

/// The core shims: `python.exe`, `pythonw.exe`, `pip.exe` and `pip3.exe` in
/// the shims directory, each once, and each a copy of one of the two
/// templates in `bin`; only `pythonw.exe` is the windowed template, the
/// others are the console one.
pub proof fn lemma_core_shims_meaning(root: Seq<char>)
    ensures
        ({
            let c = core_shims_of(root);
            let shims = join_of(root, "shims"@);
            let bin = join_of(root, "bin"@);
            let console = join_of(bin, "pvm-shim.exe"@);
            let gui = join_of(bin, "pvm-shimw.exe"@);
            &&& c.len() == 4
            &&& console != gui
            &&& forall|i: int| 0 <= i < 4 ==> (#[trigger] c[i]).1 == console || c[i].1 == gui
            &&& forall|i: int|
                0 <= i < 4 ==> ((#[trigger] c[i]).1 == gui <==> c[i].0 == join_of(shims, "pythonw.exe"@))
            &&& forall|i: int, j: int| 0 <= i < j < 4 ==> (#[trigger] c[i]).0 != (#[trigger] c[j]).0
            &&& c[0].0 == join_of(shims, "python.exe"@) && c[1].0 == join_of(shims, "pythonw.exe"@)
                && c[2].0 == join_of(shims, "pip.exe"@) && c[3].0 == join_of(shims, "pip3.exe"@)
        }),
{
    reveal_strlit("pvm-shim.exe");
    reveal_strlit("pvm-shimw.exe");
    reveal_strlit("python.exe");
    reveal_strlit("pythonw.exe");
    reveal_strlit("pip.exe");
    reveal_strlit("pip3.exe");
    let shims = join_of(root, "shims"@);
    let bin = join_of(root, "bin"@);
    let names = seq!["python.exe"@, "pythonw.exe"@, "pip.exe"@, "pip3.exe"@];
    assert("pvm-shim.exe"@.len() != "pvm-shimw.exe"@.len());
    if join_of(bin, "pvm-shim.exe"@) == join_of(bin, "pvm-shimw.exe"@) {
        crate::paths::lemma_join_plain_injective(bin, "pvm-shim.exe"@, "pvm-shimw.exe"@);
    }
    assert(names[0] != names[1] && names[0] != names[2] && names[0] != names[3]) by {
        assert(names[0].len() == 10 && names[1].len() == 11 && names[2].len() == 7 && names[3].len() == 8);
    }
    assert(names[1] != names[2] && names[1] != names[3] && names[2] != names[3]) by {
        assert(names[1].len() == 11 && names[2].len() == 7 && names[3].len() == 8);
    }
    assert forall|i: int, j: int| 0 <= i < j < 4 implies join_of(shims, #[trigger] names[i]) != join_of(
        shims,
        #[trigger] names[j],
    ) by {
        if join_of(shims, names[i]) == join_of(shims, names[j]) {
            crate::paths::lemma_join_plain_injective(shims, names[i], names[j]);
        }
    }
    let c = core_shims_of(root);
    assert(c[0].0 == join_of(shims, names[0]));
    assert(c[1].0 == join_of(shims, names[1]));
    assert(c[2].0 == join_of(shims, names[2]));
    assert(c[3].0 == join_of(shims, names[3]));
}

pub open spec fn pair_views(v: Seq<(String, String)>) -> Seq<(Seq<char>, Seq<char>)> {
    v.map_values(|p: (String, String)| (p.0@, p.1@))
}

pub fn core_shims(paths: &Paths) -> (r: Vec<(String, String)>)
    ensures
        pair_views(r@) == core_shims_of(paths.root@),
{
    let shims = paths.shims();
    let bin = paths.bin();
    let console = join(bin.as_str(), "pvm-shim.exe");
    let gui = join(bin.as_str(), "pvm-shimw.exe");
    let mut v: Vec<(String, String)> = Vec::new();
    v.push((join(shims.as_str(), "python.exe"), console.clone()));
    v.push((join(shims.as_str(), "pythonw.exe"), gui));
    v.push((join(shims.as_str(), "pip.exe"), console.clone()));
    v.push((join(shims.as_str(), "pip3.exe"), console));
    assert(pair_views(v@) =~= core_shims_of(paths.root@));
    v
}

/// `Path::extension` of a file name: what follows its last dot, where the
/// dot is not its first character.
pub open spec fn extension_of(name: Seq<char>) -> Option<Seq<char>> {
    match find_last(name, '.') {
        Some(k) => if k == 0 {
            None
        } else {
            Some(name.subrange(k + 1, name.len() as int))
        },
        None => None,
    }
}

/// A file that is an executable (`.exe` in any case).
pub open spec fn is_exe_name_of(name: Seq<char>) -> bool {
    match extension_of(name) {
        Some(e) => eq_ignore_case(e, "exe"@),
        None => false,
    }
}

pub fn is_exe_name(name: &str) -> (r: bool)
    ensures
        r == is_exe_name_of(name@),
{
    proof {
        lemma_rfind_before(name@, '.', name@.len() as int);
    }
    match rfind_char(name, '.') {
        Some(k) => if k == 0 {
            false
        } else {
            let n = name.unicode_len();
            eq_ignore_case_str(name.substring_char(k + 1, n), "exe")
        },
        None => false,
    }
}

/// The error for a missing shim template.
pub fn missing_template(tmpl: &str) -> (r: PvmError)
    ensures
        r@ == ErrView::Config(
            "shim 模板缺失: "@ + tmpl@ + "（请运行 pvm init 或确保 pvm-shim.exe 已就位）"@,
        ),
{
    let mut s = cat("shim 模板缺失: ", tmpl);
    s.append("（请运行 pvm init 或确保 pvm-shim.exe 已就位）");
    PvmError::Config(s)
}

} // verus!
