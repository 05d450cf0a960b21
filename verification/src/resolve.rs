//! Resolution: from a selector to one installed version, and from the
//! configured requests (session variable, `.python-version`, global file) to
//! the effective version.
//!
//! The effective version is chosen in this order: a non-blank session value
//! (`PVM_VERSION`), then the nearest `.python-version` upwards from the
//! working directory (unless automatic switching is off), then the global
//! version file; with none of them it is an error.
use crate::error::{rv, ErrView, PvmError};
use crate::paths::{version_dir_of, Paths};
use crate::text::{cat, dec, dec_string, trim, trim_file, trim_file_str, trim_str};
use crate::version::{
    canonical_of, precedes, parse_selector, parse_selector_of, selector_source_of, version_lt,
    PythonVersion, Source, VersionSelector,
};
use vstd::prelude::*;

verus! {

/// Where the effective version came from.
#[derive(Debug)]
pub enum ResolvedFrom {
    Shell,
    /// The `.python-version` file that named it.
    Local(String),
    Global,
}

pub struct Effective {
    pub version: PythonVersion,
    pub from: ResolvedFrom,
    pub interpreter_dir: String,
}

/// Whether an installed version satisfies a selector.
pub open spec fn selector_matches_of(sel: VersionSelector, v: PythonVersion) -> bool {
    let src_ok = |s: Option<Source>|
        match s {
            Some(x) => x == v.source,
            None => true,
        };
    match sel {
        VersionSelector::Exact { ver, source, freethreaded } => v.major == ver.0 && v.minor
            == ver.1 && v.patch == ver.2 && v.freethreaded == freethreaded && src_ok(source),
        VersionSelector::PartialMinor { major, minor, source, freethreaded } => v.major == major
            && v.minor == minor && v.freethreaded == freethreaded && src_ok(source),
        VersionSelector::PartialMajor { major, source } => v.major == major && src_ok(source),
        VersionSelector::Latest { source } => src_ok(source),
        VersionSelector::Canonical(want) => v == want,
        VersionSelector::System => false,
    }
}

/// How a selector is named in messages.
pub open spec fn selector_desc_of(sel: VersionSelector) -> Seq<char> {
    match sel {
        VersionSelector::Exact { ver, .. } => dec(ver.0 as nat) + "."@ + dec(ver.1 as nat) + "."@
            + dec(ver.2 as nat),
        VersionSelector::PartialMinor { major, minor, .. } => dec(major as nat) + "."@ + dec(
            minor as nat,
        ),
        VersionSelector::PartialMajor { major, .. } => dec(major as nat),
        VersionSelector::Latest { .. } => "latest"@,
        VersionSelector::Canonical(v) => canonical_of(v),
        VersionSelector::System => "system"@,
    }
}

fn selector_matches(sel: &VersionSelector, v: &PythonVersion) -> (r: bool)
    ensures
        r == selector_matches_of(*sel, *v),
{
    let src_ok = |s: Option<Source>| -> (b: bool)
        ensures
            b == match s {
                Some(x) => x == v.source,
                None => true,
            },
        {
            match s {
                Some(x) => x == v.source,
                None => true,
            }
        };
    match sel {
        VersionSelector::Exact { ver, source, freethreaded } => {
            v.major == ver.0 && v.minor == ver.1 && v.patch == ver.2 && v.freethreaded
                == *freethreaded && src_ok(*source)
        },
        VersionSelector::PartialMinor { major, minor, source, freethreaded } => {
            v.major == *major && v.minor == *minor && v.freethreaded == *freethreaded && src_ok(
                *source,
            )
        },
        VersionSelector::PartialMajor { major, source } => v.major == *major && src_ok(*source),
        VersionSelector::Latest { source } => src_ok(*source),
        VersionSelector::Canonical(want) => *v == *want,
        VersionSelector::System => false,
    }
}

fn selector_desc(sel: &VersionSelector) -> (r: String)
    ensures
        r@ == selector_desc_of(*sel),
{
    match sel {
        VersionSelector::Exact { ver, .. } => {
            let mut s = dec_string(ver.0 as u64);
            s.append(".");
            s.append(dec_string(ver.1 as u64).as_str());
            s.append(".");
            s.append(dec_string(ver.2 as u64).as_str());
            s
        },
        VersionSelector::PartialMinor { major, minor, .. } => {
            let mut s = dec_string(*major as u64);
            s.append(".");
            s.append(dec_string(*minor as u64).as_str());
            s
        },
        VersionSelector::PartialMajor { major, .. } => dec_string(*major as u64),
        VersionSelector::Latest { .. } => String::from_str("latest"),
        VersionSelector::Canonical(v) => v.canonical(),
        VersionSelector::System => String::from_str("system"),
    }
}

/// The greatest version in `s` that satisfies `sel` (the first of equals).
pub open spec fn best_of(s: Seq<PythonVersion>, sel: VersionSelector) -> Option<PythonVersion>
    decreases s.len(),
{
    if s.len() == 0 {
        None
    } else {
        let r = best_of(s.drop_last(), sel);
        let x = s.last();
        if selector_matches_of(sel, x) {
            match r {
                None => Some(x),
                Some(b) => if version_lt(b, x) {
                    Some(x)
                } else {
                    Some(b)
                },
            }
        } else {
            r
        }
    }
}

/// Same version triple and build kind; the source may differ.
pub open spec fn same_release(a: PythonVersion, b: PythonVersion) -> bool {
    a.major == b.major && a.minor == b.minor && a.patch == b.patch && a.freethreaded
        == b.freethreaded
}

/// How many versions in `s` satisfy `sel` and are the same release as `top`.
pub open spec fn count_same(s: Seq<PythonVersion>, sel: VersionSelector, top: PythonVersion) -> nat
    decreases s.len(),
{
    if s.len() == 0 {
        0
    } else {
        count_same(s.drop_last(), sel, top) + if selector_matches_of(sel, s.last()) && same_release(
            s.last(),
            top,
        ) {
            1nat
        } else {
            0nat
        }
    }
}

/// `n` copies of `x`, separated by `, `.
pub open spec fn repeat_join(x: Seq<char>, n: nat) -> Seq<char>
    decreases n,
{
    if n == 0 {
        Seq::empty()
    } else if n == 1 {
        x
    } else {
        repeat_join(x, (n - 1) as nat) + ", "@ + x
    }
}

pub open spec fn system_unsupported_msg() -> Seq<char> {
    "system 别名本期未实现（指 PATH 上 pvm 之外的 Python）"@
}

/// Which installed version a selector resolves to. The highest matching
/// version wins. When the selector names no source and that release is
/// installed from more than one source, the default source is preferred;
/// without it the choice is ambiguous.
pub open spec fn resolve_of(
    sel: VersionSelector,
    default_source: Source,
    installed: Seq<PythonVersion>,
) -> Result<PythonVersion, ErrView> {
    if sel is System {
        Err(ErrView::Usage(system_unsupported_msg()))
    } else {
        match best_of(installed, sel) {
            None => Err(ErrView::NotInstalled(selector_desc_of(sel))),
            Some(top) => if selector_source_of(sel) is Some {
                Ok(top)
            } else {
                let n = count_same(installed, sel, top);
                if n > 1 {
                    let alt = PythonVersion { source: default_source, ..top };
                    if installed.contains(alt) {
                        Ok(alt)
                    } else {
                        Err(ErrView::Ambiguous(repeat_join(canonical_of(top), n)))
                    }
                } else {
                    Ok(top)
                }
            },
        }
    }
}

/// `best_of` is the maximum of the matching versions.
pub proof fn lemma_best_is_max(s: Seq<PythonVersion>, sel: VersionSelector)
    ensures
        best_of(s, sel) is Some <==> exists|i: int|
            0 <= i < s.len() && selector_matches_of(sel, #[trigger] s[i]),
        best_of(s, sel) matches Some(t) ==> {
            &&& s.contains(t)
            &&& selector_matches_of(sel, t)
            &&& forall|i: int|
                0 <= i < s.len() && selector_matches_of(sel, #[trigger] s[i]) ==> !version_lt(
                    t,
                    s[i],
                )
        },
    decreases s.len(),
{
    if s.len() > 0 {
        let t = s.drop_last();
        lemma_best_is_max(t, sel);
        assert forall|i: int| 0 <= i < t.len() implies #[trigger] t[i] == s[i] by {}
        if let Some(b) = best_of(t, sel) {
            let j = choose|j: int| 0 <= j < t.len() && t[j] == b;
            assert(s[j] == b);
        }
        if selector_matches_of(sel, s.last()) {
            assert(s[s.len() - 1] == s.last());
        }
        assert forall|i: int|
            0 <= i < s.len() && selector_matches_of(sel, #[trigger] s[i]) implies best_of(
            s,
            sel,
        ) is Some && !version_lt(best_of(s, sel)->0, s[i]) by {
            if i < s.len() - 1 {
                assert(t[i] == s[i]);
            }
            if let Some(b) = best_of(t, sel) {
                crate::version::lemma_version_order_total(b, s.last());
                if i < s.len() - 1 && version_lt(b, s.last()) {
                    crate::version::lemma_version_order_total(b, s[i]);
                    if version_lt(s.last(), s[i]) {
                        crate::version::lemma_version_order_transitive(b, s.last(), s[i]);
                    }
                }
            }
        }
    }
}

fn join_repeat(x: &str, n: usize) -> (r: String)
    requires
        n >= 1,
    ensures
        r@ == repeat_join(x@, n as nat),
{
    let mut s = String::from_str(x);
    let mut i: usize = 1;
    while i < n
        invariant
            1 <= i <= n,
            s@ == repeat_join(x@, i as nat),
        decreases n - i,
    {
        s.append(", ");
        s.append(x);
        i = i + 1;
    }
    s
}

/// Resolves a selector against the installed versions.
pub fn resolve_installed(
    sel: &VersionSelector,
    default_source: Source,
    installed: &Vec<PythonVersion>,
) -> (r: Result<PythonVersion, PvmError>)
    ensures
        rv(r) == resolve_of(*sel, default_source, installed@),
{
    if sel.is_system() {
        return Err(
            PvmError::Usage(String::from_str("system 别名本期未实现（指 PATH 上 pvm 之外的 Python）")),
        );
    }
    let n = installed.len();
    let mut best: Option<PythonVersion> = None;
    let mut i: usize = 0;
    while i < n
        invariant
            n == installed@.len(),
            i <= n,
            best == best_of(installed@.subrange(0, i as int), *sel),
        decreases n - i,
    {
        let x = installed[i];
        proof {
            let s = installed@.subrange(0, i + 1);
            assert(s.drop_last() =~= installed@.subrange(0, i as int));
            assert(s.last() == x);
        }
        if selector_matches(sel, &x) {
            match best {
                None => {
                    best = Some(x);
                },
                Some(b) => {
                    if precedes(&b, &x) {
                        best = Some(x);
                    }
                },
            }
        }
        i = i + 1;
    }
    assert(installed@.subrange(0, n as int) =~= installed@);
    let top = match best {
        None => return Err(PvmError::NotInstalled(selector_desc(sel))),
        Some(t) => t,
    };
    if sel.source().is_some() {
        return Ok(top);
    }
    let mut count: usize = 0;
    let mut has_alt = false;
    let alt = PythonVersion { source: default_source, ..top };
    let mut j: usize = 0;
    while j < n
        invariant
            n == installed@.len(),
            j <= n,
            count == count_same(installed@.subrange(0, j as int), *sel, top),
            count <= j,
            has_alt == installed@.subrange(0, j as int).contains(alt),
        decreases n - j,
    {
        let x = installed[j];
        proof {
            let s = installed@.subrange(0, j + 1);
            assert(s.drop_last() =~= installed@.subrange(0, j as int));
            assert(s.last() == x);
            assert(s =~= installed@.subrange(0, j as int).push(x));
            assert(s.contains(alt) == (installed@.subrange(0, j as int).contains(alt) || x == alt))
                by {
                if x == alt {
                    assert(s[j as int] == alt);
                }
                if installed@.subrange(0, j as int).contains(alt) {
                    let k = choose|k: int|
                        0 <= k < j && installed@.subrange(0, j as int)[k] == alt;
                    assert(s[k] == alt);
                }
                if s.contains(alt) {
                    let k = choose|k: int| 0 <= k < j + 1 && s[k] == alt;
                    if k < j {
                        assert(installed@.subrange(0, j as int)[k] == alt);
                    }
                }
            }
        }
        if selector_matches(sel, &x) && x.major == top.major && x.minor == top.minor && x.patch
            == top.patch && x.freethreaded == top.freethreaded {
            count = count + 1;
        }
        if x == alt {
            has_alt = true;
        }
        j = j + 1;
    }
    assert(installed@.subrange(0, n as int) =~= installed@);
    if count > 1 {
        if has_alt {
            Ok(alt)
        } else {
            let id = top.canonical();
            Err(PvmError::Ambiguous(join_repeat(id.as_str(), count)))
        }
    } else {
        Ok(top)
    }
}

/// What a resolution yields: the version, or the error.
pub open spec fn finalize_of(
    req: Seq<char>,
    default_source: Source,
    installed: Seq<PythonVersion>,
) -> Result<PythonVersion, ErrView> {
    match parse_selector_of(req) {
        Err(e) => Err(e),
        Ok(sel) => resolve_of(sel, default_source, installed),
    }
}

/// An effective version for a request text, with its origin.
pub fn finalize(
    req: &str,
    from: ResolvedFrom,
    default_source: Source,
    installed: &Vec<PythonVersion>,
    paths: &Paths,
) -> (r: Result<Effective, PvmError>)
    ensures
        match r {
            Ok(e) => {
                &&& finalize_of(req@, default_source, installed@) == Ok::<PythonVersion, ErrView>(
                    e.version,
                )
                &&& e.from == from
                &&& e.interpreter_dir@ == version_dir_of(paths.root@, e.version)
            },
            Err(e) => finalize_of(req@, default_source, installed@) == Err::<PythonVersion, ErrView>(
                e@,
            ),
        },
{
    let sel = match parse_selector(req) {
        Ok(s) => s,
        Err(e) => return Err(e),
    };
    let v = match resolve_installed(&sel, default_source, installed) {
        Ok(v) => v,
        Err(e) => return Err(e),
    };
    let interpreter_dir = paths.version_dir(&v);
    Ok(Effective { version: v, from, interpreter_dir })
}

/// Which request decides the effective version, and from where (0: the
/// session variable, 1: a `.python-version` file, 2: the global file). The
/// session value is trimmed; a file's text also loses a leading byte-order
/// mark.
pub open spec fn effective_request_of(
    shell: Option<Seq<char>>,
    disable_auto_switch: bool,
    local: Option<Seq<char>>,
    global: Option<Seq<char>>,
) -> Option<(Seq<char>, int)> {
    if shell is Some && trim(shell->0).len() > 0 {
        Some((trim(shell->0), 0))
    } else if !disable_auto_switch && local is Some {
        Some((trim_file(local->0), 1))
    } else if global is Some && trim_file(global->0).len() > 0 {
        Some((trim_file(global->0), 2))
    } else {
        None
    }
}

/// Whether the `.python-version` search matters: the session value is blank
/// and automatic switching is on.
pub fn needs_local(shell: Option<&str>, disable_auto_switch: bool) -> (b: bool)
    ensures
        b == (!disable_auto_switch && !(shell is Some && trim(shell->0@).len() > 0)),
{
    let shell_set = match shell {
        Some(v) => trim_str(v).unicode_len() > 0,
        None => false,
    };
    !disable_auto_switch && !shell_set
}

pub open spec fn opt_view(o: Option<&str>) -> Option<Seq<char>> {
    match o {
        Some(s) => Some(s@),
        None => None,
    }
}

/// The effective version, given what the session variable, the nearest
/// `.python-version` (its path and contents) and the global file hold.
pub fn resolve_effective(
    shell: Option<&str>,
    disable_auto_switch: bool,
    local: Option<(String, String)>,
    global: Option<&str>,
    default_source: Source,
    installed: &Vec<PythonVersion>,
    paths: &Paths,
) -> (r: Result<Effective, PvmError>)
    ensures
        match effective_request_of(
            opt_view(shell),
            disable_auto_switch,
            match local {
                Some(l) => Some(l.1@),
                None => None,
            },
            opt_view(global),
        ) {
            None => r matches Err(PvmError::NoVersionConfigured),
            Some((req, origin)) => match r {
                Ok(e) => {
                    &&& finalize_of(req, default_source, installed@) == Ok::<
                        PythonVersion,
                        ErrView,
                    >(e.version)
                    &&& e.interpreter_dir@ == version_dir_of(paths.root@, e.version)
                    &&& (origin == 0 ==> e.from is Shell)
                    &&& (origin == 1 ==> e.from == ResolvedFrom::Local((local->0).0))
                    &&& (origin == 2 ==> e.from is Global)
                },
                Err(e) => finalize_of(req, default_source, installed@) == Err::<
                    PythonVersion,
                    ErrView,
                >(e@),
            },
        },
{
    if let Some(v) = shell {
        let t = trim_str(v);
        if t.unicode_len() > 0 {
            return finalize(t, ResolvedFrom::Shell, default_source, installed, paths);
        }
    }
    if !disable_auto_switch {
        if let Some((file, raw)) = local {
            let t = trim_file_str(raw.as_str());
            return finalize(t, ResolvedFrom::Local(file), default_source, installed, paths);
        }
    }
    if let Some(g) = global {
        let t = trim_file_str(g);
        if t.unicode_len() > 0 {
            return finalize(t, ResolvedFrom::Global, default_source, installed, paths);
        }
    }
    Err(PvmError::NoVersionConfigured)
}

/// The versions named by the directories under `versions`, in the order
/// listed: those whose name is a canonical id.
pub open spec fn candidates_of(names: Seq<Seq<char>>) -> Seq<PythonVersion>
    decreases names.len(),
{
    if names.len() == 0 {
        Seq::empty()
    } else {
        let rest = candidates_of(names.drop_last());
        match crate::version::parse_canonical_of(names.last()) {
            Ok(v) => rest.push(v),
            Err(_) => rest,
        }
    }
}

pub open spec fn string_views(v: Seq<String>) -> Seq<Seq<char>> {
    v.map_values(|s: String| s@)
}

pub fn installed_candidates(names: &Vec<String>) -> (r: Vec<PythonVersion>)
    ensures
        r@ == candidates_of(string_views(names@)),
{
    let ghost nv = string_views(names@);
    let mut out: Vec<PythonVersion> = Vec::new();
    let mut i: usize = 0;
    while i < names.len()
        invariant
            nv == string_views(names@),
            i <= names@.len(),
            out@ == candidates_of(nv.take(i as int)),
        decreases names@.len() - i,
    {
        proof {
            assert(nv.take(i + 1).drop_last() =~= nv.take(i as int));
            assert(nv.take(i + 1).last() == names@[i as int]@);
        }
        match PythonVersion::parse_canonical(names[i].as_str()) {
            Ok(v) => {
                out.push(v);
            },
            Err(_) => {},
        }
        i = i + 1;
    }
    assert(nv.take(names@.len() as int) =~= nv);
    out
}

/// The installed versions, in ascending order, from those whose
/// interpreter was found.
pub fn list_installed(found: &Vec<PythonVersion>) -> (r: Vec<PythonVersion>)
    ensures
        r@.to_multiset() == found@.to_multiset(),
        crate::version::sorted_versions(r@),
{
    crate::version::sort_versions(found)
}

/// Whether a version is among the installed ones.
pub fn is_installed(v: &PythonVersion, installed: &Vec<PythonVersion>) -> (r: bool)
    ensures
        r == installed@.contains(*v),
{
    let mut i: usize = 0;
    while i < installed.len()
        invariant
            i <= installed@.len(),
            forall|k: int| 0 <= k < i ==> installed@[k] != *v,
        decreases installed@.len() - i,
    {
        if installed[i] == *v {
            return true;
        }
        i = i + 1;
    }
    false
}

/// A resolved version is installed and satisfies the selector.
pub proof fn lemma_resolve_sound(
    sel: VersionSelector,
    default_source: Source,
    installed: Seq<PythonVersion>,
)
    ensures
        resolve_of(sel, default_source, installed) matches Ok(r) ==> installed.contains(r)
            && selector_matches_of(sel, r),
{
    lemma_best_is_max(installed, sel);
}

/// Partial selectors pick the highest release: no matching installed version
/// is of a higher release than the resolved one; when the selector names a
/// source, the resolved version is the highest match outright.
pub proof fn lemma_resolve_highest(
    sel: VersionSelector,
    default_source: Source,
    installed: Seq<PythonVersion>,
)
    ensures
        resolve_of(sel, default_source, installed) matches Ok(r) ==> forall|i: int|
            0 <= i < installed.len() && selector_matches_of(sel, #[trigger] installed[i]) ==> (
            version_lt(installed[i], r) || same_release(installed[i], r)),
        resolve_of(sel, default_source, installed) matches Ok(r) ==> (selector_source_of(sel) is Some
            ==> forall|i: int|
            0 <= i < installed.len() && selector_matches_of(sel, #[trigger] installed[i])
                ==> !version_lt(r, installed[i])),
{
    lemma_best_is_max(installed, sel);
    if let Ok(r) = resolve_of(sel, default_source, installed) {
        let top = best_of(installed, sel)->0;
        assert forall|i: int|
            0 <= i < installed.len() && selector_matches_of(
                sel,
                #[trigger] installed[i],
            ) implies (version_lt(installed[i], r) || same_release(installed[i], r)) by {
            crate::version::lemma_version_order_total(top, installed[i]);
        }
    }
}

/// Release order with the source left aside: by (major, minor, patch), and
/// at the same triple the default build above the free-threaded one.
pub open spec fn release_above(a: PythonVersion, b: PythonVersion) -> bool {
    if a.major != b.major {
        a.major > b.major
    } else if a.minor != b.minor {
        a.minor > b.minor
    } else if a.patch != b.patch {
        a.patch > b.patch
    } else {
        !a.freethreaded && b.freethreaded
    }
}

/// Resolution picks the highest installed match, on any list of installed
/// versions. For a selector other than `system` that some installed version
/// matches, the answer is an installed, matching version that no match is
/// above in release; the one other answer is `Ambiguous`, when the selector
/// names no source and that highest release is installed more than once
/// with none from the default source.
pub proof fn lemma_resolve_complete(
    sel: VersionSelector,
    default_source: Source,
    installed: Seq<PythonVersion>,
)
    requires
        !(sel is System),
        exists|i: int| 0 <= i < installed.len() && selector_matches_of(sel, #[trigger] installed[i]),
    ensures
        match resolve_of(sel, default_source, installed) {
            Ok(v) => {
                &&& installed.contains(v)
                &&& selector_matches_of(sel, v)
                &&& forall|i: int|
                    0 <= i < installed.len() && selector_matches_of(sel, #[trigger] installed[i])
                        ==> !release_above(installed[i], v)
            },
            Err(e) => {
                let top = best_of(installed, sel)->0;
                &&& e is Ambiguous
                &&& selector_source_of(sel) is None
                &&& count_same(installed, sel, top) > 1
                &&& !installed.contains(PythonVersion { source: default_source, ..top })
            },
        },
{
    lemma_best_is_max(installed, sel);
    lemma_resolve_sound(sel, default_source, installed);
    lemma_resolve_highest(sel, default_source, installed);
}

/// A matching entry of the same release as `top`, where some is counted.
proof fn lemma_count_one(s: Seq<PythonVersion>, sel: VersionSelector, top: PythonVersion) -> (k: int)
    requires
        count_same(s, sel, top) > 0,
    ensures
        0 <= k < s.len(),
        selector_matches_of(sel, s[k]),
        same_release(s[k], top),
    decreases s.len(),
{
    if selector_matches_of(sel, s.last()) && same_release(s.last(), top) {
        s.len() - 1
    } else {
        let k = lemma_count_one(s.drop_last(), sel, top);
        assert(s.drop_last()[k] == s[k]);
        k
    }
}

/// Two matching entries of the same release as `top`, where more than one
/// is counted.
proof fn lemma_count_two(s: Seq<PythonVersion>, sel: VersionSelector, top: PythonVersion) -> (r: (
    int,
    int,
))
    requires
        count_same(s, sel, top) > 1,
    ensures
        0 <= r.0 < r.1 < s.len(),
        selector_matches_of(sel, s[r.0]) && same_release(s[r.0], top),
        selector_matches_of(sel, s[r.1]) && same_release(s[r.1], top),
    decreases s.len(),
{
    let t = s.drop_last();
    if selector_matches_of(sel, s.last()) && same_release(s.last(), top) {
        let k = lemma_count_one(t, sel, top);
        assert(t[k] == s[k]);
        (k, s.len() - 1)
    } else {
        let r = lemma_count_two(t, sel, top);
        assert(t[r.0] == s[r.0] && t[r.1] == s[r.1]);
        r
    }
}

/// No version is listed twice (as directories on disk give them).
pub open spec fn no_repeats(s: Seq<PythonVersion>) -> bool {
    forall|i: int, j: int| 0 <= i < j < s.len() ==> #[trigger] s[i] != #[trigger] s[j]
}

/// On a list of installed versions without repeats, resolution of any
/// selector but `system` that some installed version matches succeeds, with
/// an installed, matching version that no match is above in release: the
/// highest installed patch is chosen. (With a repeat the answer can be
/// `Ambiguous`: the same python.org version listed twice, the default source
/// standalone and a selector without source.)
pub proof fn lemma_resolve_highest_installed(
    sel: VersionSelector,
    default_source: Source,
    installed: Seq<PythonVersion>,
)
    requires
        !(sel is System),
        exists|i: int| 0 <= i < installed.len() && selector_matches_of(sel, #[trigger] installed[i]),
        no_repeats(installed),
    ensures
        resolve_of(sel, default_source, installed) matches Ok(v) && installed.contains(v)
            && selector_matches_of(sel, v) && forall|i: int|
            0 <= i < installed.len() && selector_matches_of(sel, #[trigger] installed[i])
                ==> !release_above(installed[i], v),
{
    lemma_resolve_complete(sel, default_source, installed);
    if resolve_of(sel, default_source, installed) is Err {
        lemma_best_is_max(installed, sel);
        let top = best_of(installed, sel)->0;
        let r = lemma_count_two(installed, sel, top);
        let a = installed[r.0];
        let b = installed[r.1];
        assert(a != b);
        let alt = PythonVersion { source: default_source, ..top };
        if a.source == default_source {
            assert(a == alt);
            assert(installed.contains(alt));
        } else {
            assert(b.source == default_source);
            assert(b == alt);
            assert(installed.contains(alt));
        }
    }
}

/// A directory name gives an installed candidate exactly when it is a
/// canonical id, and then the version it names.
pub proof fn lemma_candidates_exact(names: Seq<Seq<char>>, v: PythonVersion)
    ensures
        candidates_of(names).contains(v) <==> exists|k: int|
            0 <= k < names.len() && crate::version::parse_canonical_of(#[trigger] names[k])
                == Ok::<PythonVersion, ErrView>(v),
    decreases names.len(),
{
    if names.len() > 0 {
        let t = names.drop_last();
        lemma_candidates_exact(t, v);
        let rest = candidates_of(t);
        if exists|k: int|
            0 <= k < t.len() && crate::version::parse_canonical_of(#[trigger] t[k]) == Ok::<
                PythonVersion,
                ErrView,
            >(v) {
            let k = choose|k: int|
                0 <= k < t.len() && crate::version::parse_canonical_of(#[trigger] t[k]) == Ok::<
                    PythonVersion,
                    ErrView,
                >(v);
            assert(names[k] == t[k]);
        }
        if exists|k: int|
            0 <= k < names.len() && crate::version::parse_canonical_of(#[trigger] names[k])
                == Ok::<PythonVersion, ErrView>(v) {
            let k = choose|k: int|
                0 <= k < names.len() && crate::version::parse_canonical_of(#[trigger] names[k])
                    == Ok::<PythonVersion, ErrView>(v);
            if k < names.len() - 1 {
                assert(t[k] == names[k]);
            }
        }
        match crate::version::parse_canonical_of(names.last()) {
            Ok(w) => {
                assert(candidates_of(names) == rest.push(w));
                if rest.contains(v) {
                    let i = choose|i: int| 0 <= i < rest.len() && rest[i] == v;
                    assert(rest.push(w)[i] == v);
                }
                if candidates_of(names).contains(v) && w != v {
                    let i = choose|i: int| 0 <= i < rest.push(w).len() && rest.push(w)[i] == v;
                    assert(rest[i] == v);
                }
                if w == v {
                    assert(rest.push(w)[rest.len() as int] == v);
                }
            },
            Err(_) => {},
        }
    }
}

/// What it takes for an installed version to answer a selector: it carries
/// the source the selector names (through `@source` or a canonical id), the
/// numbers it names, and the build kind it names; a canonical id takes only
/// itself and `system` takes none.
pub proof fn lemma_selector_match_meaning(sel: VersionSelector, v: PythonVersion)
    requires
        selector_matches_of(sel, v),
    ensures
        selector_source_of(sel) matches Some(s) ==> v.source == s,
        !(sel is System),
        sel matches VersionSelector::Exact { ver, freethreaded, .. } ==> v.major == ver.0
            && v.minor == ver.1 && v.patch == ver.2 && v.freethreaded == freethreaded,
        sel matches VersionSelector::PartialMinor { major, minor, freethreaded, .. } ==> v.major
            == major && v.minor == minor && v.freethreaded == freethreaded,
        sel matches VersionSelector::PartialMajor { major, .. } ==> v.major == major,
        sel matches VersionSelector::Canonical(w) ==> v == w,
{
}

/// A selector that names a source resolves only to an install from that
/// source: `3.11.4@org` never answers with the standalone build.
pub proof fn lemma_resolve_keeps_source(
    sel: VersionSelector,
    default_source: Source,
    installed: Seq<PythonVersion>,
    s: Source,
)
    requires
        selector_source_of(sel) == Some(s),
    ensures
        resolve_of(sel, default_source, installed) matches Ok(v) ==> v.source == s,
{
    lemma_resolve_sound(sel, default_source, installed);
    if let Ok(v) = resolve_of(sel, default_source, installed) {
        lemma_selector_match_meaning(sel, v);
    }
}

/// A selector read from text that names a source (`3.11.4@org`,
/// `cpython-3.11.4-org`) resolves only to an install from that source.
pub proof fn lemma_named_source_resolves_there(
    raw: Seq<char>,
    sel: VersionSelector,
    default_source: Source,
    installed: Seq<PythonVersion>,
    s: Source,
)
    requires
        crate::version::parse_selector_of(raw) == Ok::<VersionSelector, ErrView>(sel),
        crate::version::named_source_of(raw) == Some(s),
    ensures
        resolve_of(sel, default_source, installed) matches Ok(v) ==> v.source == s,
{
    crate::version::lemma_selector_source(raw, sel);
    lemma_resolve_keeps_source(sel, default_source, installed, s);
}

} // verus!
