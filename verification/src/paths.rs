//! The on-disk layout. Every path derives from the root (by default
//! `%USERPROFILE%\.pvm`). Paths are Windows paths held as strings.
//!
//! Where the interpreter lives depends on the source: a standalone build
//! unpacks with one more `python\` level; the python.org installer installs
//! straight into the version directory.
use crate::text::cat;
use crate::version::{canonical_of, PythonVersion, Source};
use vstd::prelude::*;

verus! {

pub open spec fn is_sep(c: char) -> bool {
    c == '\\' || c == '/'
}

pub open spec fn is_ascii_alpha(c: char) -> bool {
    (65 <= (c as u32) <= 90) || (97 <= (c as u32) <= 122)
}

/// A drive prefix such as `C:`.
pub open spec fn has_drive(p: Seq<char>) -> bool {
    p.len() >= 2 && is_ascii_alpha(p[0]) && p[1] == ':'
}

/// A path with a prefix: a drive (`C:`) or a `\\` prefix (UNC, `\\?\`,
/// `\\.\`).
pub open spec fn has_prefix(p: Seq<char>) -> bool {
    has_drive(p) || (p.len() >= 2 && p[0] == '\\' && p[1] == '\\')
}

pub open spec fn drive_of(p: Seq<char>) -> Seq<char> {
    if has_drive(p) {
        p.subrange(0, 2)
    } else {
        Seq::empty()
    }
}

/// `Path::join` on Windows: a component with a prefix replaces the base; a
/// component with a root but no prefix keeps only the base's drive; otherwise
/// the component is appended, with a `\` between unless the base is empty,
/// ends in a separator or is a bare drive.
pub open spec fn join_of(base: Seq<char>, comp: Seq<char>) -> Seq<char> {
    if has_prefix(comp) {
        comp
    } else if comp.len() > 0 && is_sep(comp[0]) {
        drive_of(base) + comp
    } else if base.len() == 0 || is_sep(base.last()) || (base.len() == 2 && has_drive(base)) {
        base + comp
    } else {
        base + "\\"@ + comp
    }
}

fn is_sep_char(c: char) -> (b: bool)
    ensures
        b == is_sep(c),
{
    c == '\\' || c == '/'
}

fn has_drive_str(p: &str) -> (b: bool)
    ensures
        b == has_drive(p@),
{
    let n = p.unicode_len();
    if n < 2 {
        return false;
    }
    let c = p.get_char(0) as u32;
    ((65 <= c && c <= 90) || (97 <= c && c <= 122)) && p.get_char(1) == ':'
}

/// `Path::join` of one component (see [`join_of`]).
pub fn join(base: &str, comp: &str) -> (r: String)
    ensures
        r@ == join_of(base@, comp@),
{
    let cn = comp.unicode_len();
    let bn = base.unicode_len();
    if has_drive_str(comp) || (cn >= 2 && comp.get_char(0) == '\\' && comp.get_char(1) == '\\') {
        return String::from_str(comp);
    }
    if cn > 0 && is_sep_char(comp.get_char(0)) {
        if has_drive_str(base) {
            return cat(base.substring_char(0, 2), comp);
        } else {
            proof {
                assert(Seq::<char>::empty() + comp@ =~= comp@);
            }
            return String::from_str(comp);
        }
    }
    if bn == 0 || is_sep_char(base.get_char(bn - 1)) || (bn == 2 && has_drive_str(base)) {
        cat(base, comp)
    } else {
        let mut s = String::from_str(base);
        s.append("\\");
        s.append(comp);
        s
    }
}

/// The layout rooted at one directory.
pub struct Paths {
    pub root: String,
}

pub open spec fn versions_of(root: Seq<char>) -> Seq<char> {
    join_of(root, "versions"@)
}

pub open spec fn venvs_of(root: Seq<char>) -> Seq<char> {
    join_of(root, "venvs"@)
}

pub open spec fn version_dir_of(root: Seq<char>, v: PythonVersion) -> Seq<char> {
    join_of(versions_of(root), canonical_of(v))
}

/// Directory that holds `python.exe` and `pythonw.exe`.
pub open spec fn interpreter_dir_of(root: Seq<char>, v: PythonVersion) -> Seq<char> {
    match v.source {
        Source::Standalone => join_of(version_dir_of(root, v), "python"@),
        Source::Org => version_dir_of(root, v),
    }
}

pub open spec fn python_exe_of(root: Seq<char>, v: PythonVersion) -> Seq<char> {
    join_of(interpreter_dir_of(root, v), "python.exe"@)
}

pub open spec fn pythonw_exe_of(root: Seq<char>, v: PythonVersion) -> Seq<char> {
    join_of(interpreter_dir_of(root, v), "pythonw.exe"@)
}

pub open spec fn scripts_dir_of(root: Seq<char>, v: PythonVersion) -> Seq<char> {
    join_of(interpreter_dir_of(root, v), "Scripts"@)
}

/// Joining a relative name that starts with neither a drive nor a
/// separator appends it: two such names give the same path only if they are
/// the same.
pub proof fn lemma_join_plain_injective(base: Seq<char>, a: Seq<char>, b: Seq<char>)
    requires
        a.len() >= 2 && !is_sep(a[0]) && a[1] != ':',
        b.len() >= 2 && !is_sep(b[0]) && b[1] != ':',
        join_of(base, a) == join_of(base, b),
    ensures
        a == b,
{
    let sep = base.len() == 0 || is_sep(base.last()) || (base.len() == 2 && has_drive(base));
    let pre = if sep {
        base
    } else {
        base + "\\"@
    };
    assert(join_of(base, a) == pre + a);
    assert(join_of(base, b) == pre + b);
    assert((pre + a).subrange(pre.len() as int, (pre + a).len() as int) =~= a);
    assert((pre + b).subrange(pre.len() as int, (pre + b).len() as int) =~= b);
}

/// Each version has a directory of its own: two versions whose directories
/// are the same are the same version.
pub proof fn lemma_version_dir_injective(root: Seq<char>, a: PythonVersion, b: PythonVersion)
    requires
        version_dir_of(root, a) == version_dir_of(root, b),
    ensures
        a == b,
{
    reveal_strlit("cpython-");
    let ca = canonical_of(a);
    let cb = canonical_of(b);
    assert(ca[0] == 'c' && ca[1] == 'p');
    assert(cb[0] == 'c' && cb[1] == 'p');
    lemma_join_plain_injective(versions_of(root), ca, cb);
    crate::version::lemma_canonical_injective(a, b);
}

impl Paths {
    pub fn versions(&self) -> (r: String)
        ensures
            r@ == versions_of(self.root@),
    {
        join(self.root.as_str(), "versions")
    }

    pub fn shims(&self) -> (r: String)
        ensures
            r@ == join_of(self.root@, "shims"@),
    {
        join(self.root.as_str(), "shims")
    }

    pub fn venvs(&self) -> (r: String)
        ensures
            r@ == venvs_of(self.root@),
    {
        join(self.root.as_str(), "venvs")
    }

    pub fn cache(&self) -> (r: String)
        ensures
            r@ == join_of(self.root@, "cache"@),
    {
        join(self.root.as_str(), "cache")
    }

    pub fn logs(&self) -> (r: String)
        ensures
            r@ == join_of(self.root@, "logs"@),
    {
        join(self.root.as_str(), "logs")
    }

    pub fn backup(&self) -> (r: String)
        ensures
            r@ == join_of(self.root@, "backup"@),
    {
        join(self.root.as_str(), "backup")
    }

    /// Where the shim templates (`pvm-shim.exe`, `pvm-shimw.exe`) live.
    pub fn bin(&self) -> (r: String)
        ensures
            r@ == join_of(self.root@, "bin"@),
    {
        join(self.root.as_str(), "bin")
    }

    pub fn config_file(&self) -> (r: String)
        ensures
            r@ == join_of(self.root@, "config.toml"@),
    {
        join(self.root.as_str(), "config.toml")
    }

    /// The file that names the global default version (one canonical id).
    pub fn global_version_file(&self) -> (r: String)
        ensures
            r@ == join_of(self.root@, "version"@),
    {
        join(self.root.as_str(), "version")
    }

    pub fn version_dir(&self, v: &PythonVersion) -> (r: String)
        ensures
            r@ == version_dir_of(self.root@, *v),
    {
        let versions = self.versions();
        let id = v.canonical();
        join(versions.as_str(), id.as_str())
    }

    fn interpreter_dir(&self, v: &PythonVersion) -> (r: String)
        ensures
            r@ == interpreter_dir_of(self.root@, *v),
    {
        let d = self.version_dir(v);
        match v.source {
            Source::Standalone => join(d.as_str(), "python"),
            Source::Org => d,
        }
    }

    /// The real `python.exe` of a version.
    pub fn python_exe(&self, v: &PythonVersion) -> (r: String)
        ensures
            r@ == python_exe_of(self.root@, *v),
    {
        let d = self.interpreter_dir(v);
        join(d.as_str(), "python.exe")
    }

    /// `pythonw.exe`, beside `python.exe`.
    pub fn pythonw_exe(&self, v: &PythonVersion) -> (r: String)
        ensures
            r@ == pythonw_exe_of(self.root@, *v),
    {
        let d = self.interpreter_dir(v);
        join(d.as_str(), "pythonw.exe")
    }

    /// `Scripts`, where `pip.exe` and the entry points live.
    pub fn scripts_dir(&self, v: &PythonVersion) -> (r: String)
        ensures
            r@ == scripts_dir_of(self.root@, *v),
    {
        let d = self.interpreter_dir(v);
        join(d.as_str(), "Scripts")
    }
}

} // verus!
