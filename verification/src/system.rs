//! Pythons installed outside pvm: registry entries, the `py` launcher's
//! list, and the `python.exe` files that `PATH` reaches. The registry and
//! file-system look-ups are the caller's; this module decides what is
//! listed.
use crate::paths::{join, join_of};
use crate::text::{
    has_sub, contains_str, lines, lines_of, lowercase_of, occurs_at, occurs_at_str,
    split_char, split_str, str_eq, to_lower, trim, trim_str, views,
};
use vstd::prelude::*;

verus! {

/// A Python found on the system.
pub struct SystemPython {
    /// The version, `x.y.z` where known, at least `x.y`.
    pub version: String,
    /// Absolute path of `python.exe`.
    pub path: String,
    /// `registry` or `launcher`.
    pub origin: String,
}

/// A `python.exe` reached through `PATH`.
pub struct PathPython {
    pub path: String,
    pub dir: String,
    /// In a `WindowsApps` directory: the Microsoft Store stub.
    pub fake: bool,
    /// The first one, the one that `python` runs.
    pub effective: bool,
}

// ------------------------------------------------------------- registry

/// `s` without the `c`s at its end.
pub open spec fn trim_end_of(s: Seq<char>, c: char) -> Seq<char>
    decreases s.len(),
{
    if s.len() > 0 && s.last() == c {
        trim_end_of(s.drop_last(), c)
    } else {
        s
    }
}

fn trim_end_char(s: &str, c: char) -> (r: &str)
    ensures
        r@ == trim_end_of(s@, c),
{
    let n = s.unicode_len();
    let mut b: usize = n;
    assert(s@.subrange(0, n as int) =~= s@);
    while b > 0 && s.get_char(b - 1) == c
        invariant
            n == s@.len(),
            b <= n,
            trim_end_of(s@.subrange(0, b as int), c) == trim_end_of(s@, c),
        decreases b,
    {
        assert(s@.subrange(0, b as int).drop_last() =~= s@.subrange(0, b - 1));
        b = b - 1;
    }
    s.substring_char(0, b)
}

/// The interpreter of a `PythonCore` entry: its `ExecutablePath`, else
/// `python.exe` in its install directory.
pub open spec fn registry_exe_of(exe: Option<Seq<char>>, dir: Option<Seq<char>>) -> Option<
    Seq<char>,
> {
    match exe {
        Some(e) => Some(e),
        None => match dir {
            Some(d) => Some(trim_end_of(d, '\\') + "\\python.exe"@),
            None => None,
        },
    }
}

pub open spec fn opt_view(o: Option<String>) -> Option<Seq<char>> {
    match o {
        Some(s) => Some(s@),
        None => None,
    }
}

/// The entry of one `PythonCore\<tag>` key: its interpreter, and its
/// version (`Version`, else `SysVersion`, else the tag).
pub fn registry_candidate(
    tag: &str,
    exe: Option<String>,
    dir: Option<String>,
    version: Option<String>,
    sys_version: Option<String>,
) -> (r: Option<SystemPython>)
    ensures
        match r {
            Some(p) => registry_exe_of(opt_view(exe), opt_view(dir)) == Some(p.path@)
                && p.version@ == (match version {
                Some(v) => v@,
                None => match sys_version {
                    Some(v) => v@,
                    None => tag@,
                },
            }) && p.origin@ == "registry"@,
            None => registry_exe_of(opt_view(exe), opt_view(dir)) is None,
        },
{
    let path = match exe {
        Some(e) => e,
        None => match dir {
            Some(d) => {
                let mut s = String::from_str(trim_end_char(d.as_str(), '\\'));
                s.append("\\python.exe");
                s
            },
            None => return None,
        },
    };
    let ver = match version {
        Some(v) => v,
        None => match sys_version {
            Some(v) => v,
            None => String::from_str(tag),
        },
    };
    Some(SystemPython { version: ver, path, origin: String::from_str("registry") })
}

// ------------------------------------------------------------- launcher

/// A character that `(?i)[A-Z]` matches: an ASCII letter, `ſ` or the
/// Kelvin sign.
pub open spec fn drive_letter(c: char) -> bool {
    ('A' <= c && c <= 'Z') || ('a' <= c && c <= 'z') || c == '\u{17f}' || c == '\u{212a}'
}

pub open spec fn ascii_lower(c: char) -> char {
    if 'A' <= c && c <= 'Z' {
        ((c as u32) + 32) as char
    } else {
        c
    }
}

/// `python.exe` at `e`, in any case.
pub open spec fn exe_name_at(s: Seq<char>, e: int) -> bool {
    0 <= e && e + 10 <= s.len() && forall|t: int|
        0 <= t < 10 ==> ascii_lower(#[trigger] s[e + t]) == "python.exe"@[t]
}

/// Where the shortest `[^\r\n]*?python\.exe` from `e` on ends.
pub open spec fn exe_from(s: Seq<char>, e: int) -> Option<int>
    decreases s.len() - e,
{
    if e < 0 || e + 10 > s.len() {
        None
    } else if exe_name_at(s, e) {
        Some(e + 10)
    } else if s[e] == '\r' || s[e] == '\n' {
        None
    } else {
        exe_from(s, e + 1)
    }
}

/// End of the path matched at `a` by `(?i)[A-Z]:\\[^\r\n]*?python\.exe`.
pub open spec fn path_match_at(s: Seq<char>, a: int) -> Option<int> {
    if 0 <= a && a + 3 <= s.len() && drive_letter(s[a]) && s[a + 1] == ':' && s[a + 2] == '\\' {
        exe_from(s, a + 3)
    } else {
        None
    }
}

/// The leftmost path match at or after `a`.
pub open spec fn first_path_match(s: Seq<char>, a: int) -> Option<(int, int)>
    decreases s.len() - a,
{
    if a < 0 || a >= s.len() {
        None
    } else {
        match path_match_at(s, a) {
            Some(e) => Some((a, e)),
            None => first_path_match(s, a + 1),
        }
    }
}

/// End of the run of digits (as `\d` reads them) from `j`.
pub open spec fn digits_end(s: Seq<char>, j: int) -> int
    decreases s.len() - j,
{
    if 0 <= j < s.len() && crate::text::nd_digit(s[j]) {
        digits_end(s, j + 1)
    } else {
        j
    }
}

/// End of the version matched at `b` by `-V:(\d+\.\d+(?:\.\d+)?)`.
pub open spec fn ver_match_at(s: Seq<char>, b: int) -> Option<int> {
    if occurs_at(s, "-V:"@, b) {
        let e1 = digits_end(s, b + 3);
        if e1 > b + 3 && e1 < s.len() && s[e1] == '.' {
            let e2 = digits_end(s, e1 + 1);
            if e2 > e1 + 1 {
                if e2 < s.len() && s[e2] == '.' && digits_end(s, e2 + 1) > e2 + 1 {
                    Some(digits_end(s, e2 + 1))
                } else {
                    Some(e2)
                }
            } else {
                None
            }
        } else {
            None
        }
    } else {
        None
    }
}

/// The leftmost version match at or after `b`.
pub open spec fn first_ver_match(s: Seq<char>, b: int) -> Option<(int, int)>
    decreases s.len() - b,
{
    if b < 0 || b >= s.len() {
        None
    } else {
        match ver_match_at(s, b) {
            Some(e) => Some((b, e)),
            None => first_ver_match(s, b + 1),
        }
    }
}

/// What one line of `py --list-paths` lists: the interpreter path
/// (trimmed) and its version, `?` where the line names none.
pub open spec fn launcher_entry_of(line: Seq<char>) -> Option<(Seq<char>, Seq<char>)> {
    match first_path_match(line, 0) {
        Some(m) => Some(
            (
                trim(line.subrange(m.0, m.1)),
                match first_ver_match(line, 0) {
                    Some(v) => line.subrange(v.0 + 3, v.1),
                    None => "?"@,
                },
            ),
        ),
        None => None,
    }
}

/// The entries of all lines, in order.
pub open spec fn launcher_entries_of(ls: Seq<Seq<char>>) -> Seq<(Seq<char>, Seq<char>)>
    decreases ls.len(),
{
    if ls.len() == 0 {
        Seq::empty()
    } else {
        let rest = launcher_entries_of(ls.drop_last());
        match launcher_entry_of(ls.last()) {
            Some(e) => rest.push(e),
            None => rest,
        }
    }
}

proof fn lemma_exe_from(s: Seq<char>, e: int)
    requires
        0 <= e,
    ensures
        match exe_from(s, e) {
            Some(x) => e + 10 <= x <= s.len(),
            None => true,
        },
    decreases s.len() - e,
{
    if e + 10 <= s.len() && !exe_name_at(s, e) && !(s[e] == '\r' || s[e] == '\n') {
        lemma_exe_from(s, e + 1);
    }
}

fn exe_name_at_exec(s: &str, e: usize) -> (r: bool)
    requires
        e + 10 <= s@.len(),
    ensures
        r == exe_name_at(s@, e as int),
{
    let pat = "python.exe";
    proof {
        reveal_strlit("python.exe");
    }
    let n = s.unicode_len();
    let mut t: usize = 0;
    while t < 10
        invariant
            n == s@.len(),
            e + 10 <= s@.len(),
            pat@ == "python.exe"@,
            pat@.len() == 10,
            t <= 10,
            forall|k: int| 0 <= k < t ==> ascii_lower(#[trigger] s@[e + k]) == "python.exe"@[k],
        decreases 10 - t,
    {
        let c = s.get_char(e + t);
        let l = if 'A' <= c && c <= 'Z' {
            let b = (c as u32) as u8;
            (b + 32) as char
        } else {
            c
        };
        assert(l == ascii_lower(c));
        if l != pat.get_char(t) {
            return false;
        }
        t = t + 1;
    }
    true
}

fn exe_from_exec(s: &str, e0: usize) -> (r: Option<usize>)
    requires
        e0 <= s@.len(),
    ensures
        match r {
            Some(x) => exe_from(s@, e0 as int) == Some(x as int),
            None => exe_from(s@, e0 as int) is None,
        },
{
    let n = s.unicode_len();
    let mut e = e0;
    while e < n
        invariant
            n == s@.len(),
            e0 <= e <= n,
            exe_from(s@, e as int) == exe_from(s@, e0 as int),
        decreases n - e,
    {
        if n - e < 10 {
            return None;
        }
        if exe_name_at_exec(s, e) {
            return Some(e + 10);
        }
        let c = s.get_char(e);
        if c == '\r' || c == '\n' {
            return None;
        }
        e = e + 1;
    }
    None
}

fn first_path_match_exec(s: &str) -> (r: Option<(usize, usize)>)
    ensures
        match r {
            Some(m) => first_path_match(s@, 0) == Some((m.0 as int, m.1 as int)) && m.0 < m.1 <= s@.len(),
            None => first_path_match(s@, 0) is None,
        },
{
    let n = s.unicode_len();
    let mut a: usize = 0;
    while a < n
        invariant
            n == s@.len(),
            a <= n,
            first_path_match(s@, a as int) == first_path_match(s@, 0),
        decreases n - a,
    {
        if n - a >= 3 {
            let c = s.get_char(a);
            let d = ('A' <= c && c <= 'Z') || ('a' <= c && c <= 'z') || c == '\u{17f}' || c
                == '\u{212a}';
            if d && s.get_char(a + 1) == ':' && s.get_char(a + 2) == '\\' {
                proof {
                    lemma_exe_from(s@, a + 3);
                }
                match exe_from_exec(s, a + 3) {
                    Some(e) => {
                        return Some((a, e));
                    },
                    None => {},
                }
            }
        }
        a = a + 1;
    }
    None
}

proof fn lemma_digits_end(s: Seq<char>, j: int)
    requires
        0 <= j <= s.len(),
    ensures
        j <= digits_end(s, j) <= s.len(),
    decreases s.len() - j,
{
    if j < s.len() && crate::text::nd_digit(s[j]) {
        lemma_digits_end(s, j + 1);
    }
}

fn digits_end_exec(s: &str, j: usize) -> (e: usize)
    requires
        j <= s@.len(),
    ensures
        e == digits_end(s@, j as int),
        j <= e <= s@.len(),
{
    let n = s.unicode_len();
    let mut e = j;
    proof {
        lemma_digits_end(s@, j as int);
    }
    while e < n && crate::text::is_nd_digit(s.get_char(e))
        invariant
            n == s@.len(),
            j <= e <= n,
            digits_end(s@, e as int) == digits_end(s@, j as int),
        decreases n - e,
    {
        e = e + 1;
    }
    e
}

fn ver_match_at_exec(s: &str, b: usize) -> (r: Option<usize>)
    requires
        b < s@.len(),
    ensures
        match r {
            Some(e) => ver_match_at(s@, b as int) == Some(e as int) && b + 3 <= e <= s@.len(),
            None => ver_match_at(s@, b as int) is None,
        },
{
    proof {
        reveal_strlit("-V:");
    }
    let n = s.unicode_len();
    if n - b < 3 || !occurs_at_str(s, "-V:", b) {
        return None;
    }
    let e1 = digits_end_exec(s, b + 3);
    if !(e1 > b + 3 && e1 < n && s.get_char(e1) == '.') {
        return None;
    }
    let e2 = digits_end_exec(s, e1 + 1);
    if e2 <= e1 + 1 {
        return None;
    }
    if e2 < n && s.get_char(e2) == '.' {
        let e3 = digits_end_exec(s, e2 + 1);
        if e3 > e2 + 1 {
            return Some(e3);
        }
    }
    Some(e2)
}

fn first_ver_match_exec(s: &str) -> (r: Option<(usize, usize)>)
    ensures
        match r {
            Some(m) => first_ver_match(s@, 0) == Some((m.0 as int, m.1 as int)) && m.0 + 3 <= m.1
                <= s@.len(),
            None => first_ver_match(s@, 0) is None,
        },
{
    let n = s.unicode_len();
    let mut b: usize = 0;
    while b < n
        invariant
            n == s@.len(),
            b <= n,
            first_ver_match(s@, b as int) == first_ver_match(s@, 0),
        decreases n - b,
    {
        match ver_match_at_exec(s, b) {
            Some(e) => {
                return Some((b, e));
            },
            None => {},
        }
        b = b + 1;
    }
    None
}

fn launcher_entry(line: &str) -> (r: Option<(String, String)>)
    ensures
        match r {
            Some(p) => launcher_entry_of(line@) == Some((p.0@, p.1@)),
            None => launcher_entry_of(line@) is None,
        },
{
    match first_path_match_exec(line) {
        Some((a, e)) => {
            let path = String::from_str(trim_str(line.substring_char(a, e)));
            let ver = match first_ver_match_exec(line) {
                Some((b, f)) => String::from_str(line.substring_char(b + 3, f)),
                None => {
                    proof {
                        reveal_strlit("?");
                    }
                    String::from_str("?")
                },
            };
            Some((path, ver))
        },
        None => None,
    }
}

pub open spec fn pair_views(v: Seq<(String, String)>) -> Seq<(Seq<char>, Seq<char>)> {
    v.map_values(|p: (String, String)| (p.0@, p.1@))
}

/// The interpreters that `py --list-paths` prints, with their versions, in
/// the order printed.
pub fn launcher_entries(text: &str) -> (r: Vec<(String, String)>)
    ensures
        pair_views(r@) == launcher_entries_of(lines_of(text@)),
{
    let ls = lines(text);
    let ghost lv = lines_of(text@);
    let mut out: Vec<(String, String)> = Vec::new();
    let mut i: usize = 0;
    while i < ls.len()
        invariant
            views(ls@) == lv,
            i <= ls@.len(),
            pair_views(out@) == launcher_entries_of(lv.take(i as int)),
        decreases ls@.len() - i,
    {
        let line = ls[i];
        proof {
            assert(line@ == lv[i as int]);
            assert(lv.take(i + 1).drop_last() =~= lv.take(i as int));
            assert(lv.take(i + 1).last() == lv[i as int]);
        }
        let ghost before = out@;
        match launcher_entry(line) {
            Some(p) => {
                let ghost pv = (p.0@, p.1@);
                out.push(p);
                assert(pair_views(out@) =~= pair_views(before).push(pv));
            },
            None => {},
        }
        i = i + 1;
    }
    assert(lv.take(ls@.len() as int) =~= lv);
    out
}

/// A launcher entry as a found Python.
pub fn launcher_candidate(entry: (String, String)) -> (r: SystemPython)
    ensures
        r.path@ == entry.0@,
        r.version@ == entry.1@,
        r.origin@ == "launcher"@,
{
    SystemPython { version: entry.1, path: entry.0, origin: String::from_str("launcher") }
}

// ------------------------------------------------------------- listing

/// `rs` holds a Python whose path is `p` up to case.
pub open spec fn has_path(rs: Seq<SystemPython>, p: Seq<char>) -> bool {
    exists|k: int| 0 <= k < rs.len() && lowercase_of(#[trigger] rs[k].path@) == lowercase_of(p)
}

/// The Pythons listed from candidates in order (registry entries first,
/// then the launcher's), each with whether its interpreter exists: those
/// that exist, each path once up to case, the first one kept.
pub open spec fn listed_of(cs: Seq<(SystemPython, bool)>) -> Seq<SystemPython>
    decreases cs.len(),
{
    if cs.len() == 0 {
        Seq::empty()
    } else {
        let rest = listed_of(cs.drop_last());
        let c = cs.last();
        if c.1 && !has_path(rest, c.0.path@) {
            rest.push(c.0)
        } else {
            rest
        }
    }
}

/// The Pythons installed outside pvm, from the registry and launcher
/// candidates that the caller found.
pub fn list_system_pythons(candidates: Vec<(SystemPython, bool)>) -> (r: Vec<SystemPython>)
    ensures
        r@ == listed_of(candidates@),
{
    let ghost orig = candidates@;
    let n = candidates.len();
    let mut src = candidates;
    let mut out: Vec<SystemPython> = Vec::new();
    let mut keys: Vec<String> = Vec::new();
    let mut i: usize = 0;
    while i < n
        invariant
            n == orig.len(),
            i <= n,
            src@ == orig.subrange(i as int, n as int),
            out@ == listed_of(orig.take(i as int)),
            keys@.len() == out@.len(),
            forall|k: int| 0 <= k < keys@.len() ==> #[trigger] keys@[k]@ == lowercase_of(out@[k].path@),
        decreases n - i,
    {
        let c = src.remove(0);
        proof {
            assert(c == orig[i as int]);
            assert(orig.take(i + 1).drop_last() =~= orig.take(i as int));
            assert(orig.take(i + 1).last() == orig[i as int]);
            assert(src@ =~= orig.subrange(i + 1, n as int));
        }
        let (p, exists) = c;
        if exists {
            let key = to_lower(p.path.as_str());
            let mut j: usize = 0;
            let mut seen = false;
            while j < keys.len()
                invariant
                    j <= keys@.len(),
                    keys@.len() == out@.len(),
                    forall|k: int| 0 <= k < keys@.len() ==> #[trigger] keys@[k]@ == lowercase_of(out@[k].path@),
                    seen == exists|k: int| 0 <= k < j && lowercase_of(#[trigger] out@[k].path@) == key@,
                decreases keys@.len() - j,
            {
                if str_eq(keys[j].as_str(), key.as_str()) {
                    seen = true;
                }
                j = j + 1;
            }
            assert(seen == has_path(out@, p.path@));
            if !seen {
                out.push(p);
                keys.push(key);
            }
        }
        i = i + 1;
    }
    assert(orig.take(n as int) =~= orig);
    out
}

// ------------------------------------------------------------- PATH

/// The directories of `PATH` (split at `;`, trimmed, empty ones left out),
/// each with the `python.exe` it would hold.
pub open spec fn path_candidates_of(path_var: Seq<char>) -> Seq<(Seq<char>, Seq<char>)> {
    dirs_with_exe(split_char(path_var, ';'))
}

pub open spec fn dirs_with_exe(parts: Seq<Seq<char>>) -> Seq<(Seq<char>, Seq<char>)>
    decreases parts.len(),
{
    if parts.len() == 0 {
        Seq::empty()
    } else {
        let rest = dirs_with_exe(parts.drop_last());
        let d = trim(parts.last());
        if d.len() == 0 {
            rest
        } else {
            rest.push((d, join_of(d, "python.exe"@)))
        }
    }
}

pub fn path_candidates(path_var: &str) -> (r: Vec<(String, String)>)
    ensures
        pair_views(r@) == path_candidates_of(path_var@),
{
    let parts = split_str(path_var, ';');
    let ghost pv = split_char(path_var@, ';');
    let mut out: Vec<(String, String)> = Vec::new();
    let mut i: usize = 0;
    while i < parts.len()
        invariant
            views(parts@) == pv,
            i <= parts@.len(),
            pair_views(out@) == dirs_with_exe(pv.take(i as int)),
        decreases parts@.len() - i,
    {
        let d = trim_str(parts[i]);
        proof {
            assert(parts@[i as int]@ == pv[i as int]);
            assert(pv.take(i + 1).drop_last() =~= pv.take(i as int));
            assert(pv.take(i + 1).last() == pv[i as int]);
        }
        if d.unicode_len() > 0 {
            let ghost before = out@;
            let exe = join(d, "python.exe");
            let ghost e = (d@, exe@);
            out.push((String::from_str(d), exe));
            assert(pair_views(out@) =~= pair_views(before).push(e));
        }
        i = i + 1;
    }
    assert(pv.take(parts@.len() as int) =~= pv);
    out
}

/// What one `PATH` entry is listed as.
pub open spec fn path_python_ok(p: PathPython, dir: Seq<char>, exe: Seq<char>) -> bool {
    p.path@ == exe && p.dir@ == dir && p.fake == has_sub(lowercase_of(dir), "windowsapps"@)
}

/// The entries kept from candidates (directory, `python.exe` path, whether
/// it is a file): files only, each path once up to case, in order.
pub open spec fn kept_paths(cs: Seq<(Seq<char>, Seq<char>, bool)>) -> Seq<(Seq<char>, Seq<char>)>
    decreases cs.len(),
{
    if cs.len() == 0 {
        Seq::empty()
    } else {
        let rest = kept_paths(cs.drop_last());
        let c = cs.last();
        if c.2 && !(exists|k: int|
            0 <= k < rest.len() && lowercase_of(#[trigger] rest[k].1) == lowercase_of(c.1)) {
            rest.push((c.0, c.1))
        } else {
            rest
        }
    }
}

pub open spec fn triple_views(v: Seq<(String, String, bool)>) -> Seq<(Seq<char>, Seq<char>, bool)> {
    v.map_values(|p: (String, String, bool)| (p.0@, p.1@, p.2))
}

/// The `python.exe` files that `PATH` reaches, in order, the first one
/// marked as the one that runs.
pub fn path_pythons(candidates: &Vec<(String, String, bool)>) -> (r: Vec<PathPython>)
    ensures
        r@.len() == kept_paths(triple_views(candidates@)).len(),
        forall|k: int|
            0 <= k < r@.len() ==> path_python_ok(
                #[trigger] r@[k],
                kept_paths(triple_views(candidates@))[k].0,
                kept_paths(triple_views(candidates@))[k].1,
            ) && r@[k].effective == (k == 0),
{
    let ghost cv = triple_views(candidates@);
    let mut out: Vec<PathPython> = Vec::new();
    let mut keys: Vec<String> = Vec::new();
    let mut i: usize = 0;
    while i < candidates.len()
        invariant
            cv == triple_views(candidates@),
            i <= candidates@.len(),
            out@.len() == kept_paths(cv.take(i as int)).len(),
            keys@.len() == out@.len(),
            forall|k: int|
                0 <= k < out@.len() ==> path_python_ok(
                    #[trigger] out@[k],
                    kept_paths(cv.take(i as int))[k].0,
                    kept_paths(cv.take(i as int))[k].1,
                ) && out@[k].effective == (k == 0),
            forall|k: int| 0 <= k < keys@.len() ==> #[trigger] keys@[k]@ == lowercase_of(out@[k].path@),
        decreases candidates@.len() - i,
    {
        let c = &candidates[i];
        let ghost prev = kept_paths(cv.take(i as int));
        proof {
            assert(cv.take(i + 1).drop_last() =~= cv.take(i as int));
            assert(cv.take(i + 1).last() == cv[i as int]);
            assert(cv[i as int] == (c.0@, c.1@, c.2));
        }
        if c.2 {
            let key = to_lower(c.1.as_str());
            let mut j: usize = 0;
            let mut seen = false;
            while j < keys.len()
                invariant
                    j <= keys@.len(),
                    keys@.len() == out@.len(),
                    out@.len() == prev.len(),
                    forall|k: int| 0 <= k < keys@.len() ==> #[trigger] keys@[k]@ == lowercase_of(out@[k].path@),
                    forall|k: int| 0 <= k < out@.len() ==> (#[trigger] out@[k]).path@ == prev[k].1,
                    seen == exists|k: int| 0 <= k < j && lowercase_of(#[trigger] prev[k].1) == key@,
                decreases keys@.len() - j,
            {
                if str_eq(keys[j].as_str(), key.as_str()) {
                    seen = true;
                }
                j = j + 1;
            }
            if !seen {
                let low_dir = to_lower(c.0.as_str());
                let fake = contains_str(low_dir.as_str(), "windowsapps");
                let first = out.len() == 0;
                let ghost before = out@;
                out.push(
                    PathPython {
                        path: c.1.clone(),
                        dir: c.0.clone(),
                        fake,
                        effective: first,
                    },
                );
                keys.push(key);
                proof {
                    let now = kept_paths(cv.take(i + 1));
                    assert(now =~= prev.push((c.0@, c.1@)));
                    assert forall|k: int| 0 <= k < out@.len() implies path_python_ok(
                        #[trigger] out@[k],
                        now[k].0,
                        now[k].1,
                    ) && out@[k].effective == (k == 0) by {
                        if k < before.len() {
                            assert(out@[k] == before[k]);
                        }
                    }
                }
            }
        }
        i = i + 1;
    }
    assert(cv.take(candidates@.len() as int) =~= cv);
    out
}

} // verus!
