//! Python version identifiers, sources, and the selectors that users write.
//!
//! A canonical id names one installed interpreter on disk:
//! `cpython-<major>.<minor>.<patch>[t]-<standalone|org>`. The `t` marks a
//! free-threaded build. On the command line the python.org source is spelled
//! `cpython`; on disk its suffix is `org`.
use crate::error::{rv, ErrView, PvmError};
use crate::text::{
    contains_char, eq_ignore_case, eq_ignore_case_str, find_char, find_first, is_ws,
    lemma_find_first_contains, trim, trim_str, all_digits, is_digit, lemma_dec, lemma_digit_not_sep, lemma_parse_dec, lemma_rfind_at,
    lemma_split_three, rfind_before, cat, dec, dec_string, ends_with, ends_with_str, find_last, lemma_rfind_before, parse_u32,
    parse_u32_str, rfind_char, split_char, split_str, starts_with, starts_with_str, str_eq, views,
};
use core::cmp::Ordering;
use vstd::prelude::*;
use vstd::std_specs::cmp::PartialOrdSpecImpl;

verus! {

/// Where an interpreter comes from.
#[derive(Clone, Copy, PartialEq, Eq, Debug, Structural)]
pub enum Source {
    Standalone,
    Org,
}

impl Source {
    /// Suffix of the canonical id.
    pub open spec fn suffix_of(self) -> Seq<char> {
        match self {
            Source::Standalone => "standalone"@,
            Source::Org => "org"@,
        }
    }

    /// Value of `--source` on the command line.
    pub open spec fn cli_of(self) -> Seq<char> {
        match self {
            Source::Standalone => "standalone"@,
            Source::Org => "cpython"@,
        }
    }

    /// Both `cpython` and `org` name the python.org source.
    pub open spec fn parse_cli(s: Seq<char>) -> Option<Source> {
        if s == "standalone"@ {
            Some(Source::Standalone)
        } else if s == "cpython"@ || s == "org"@ {
            Some(Source::Org)
        } else {
            None
        }
    }

    pub fn id_suffix(self) -> (r: &'static str)
        ensures
            r@ == self.suffix_of(),
    {
        match self {
            Source::Standalone => "standalone",
            Source::Org => "org",
        }
    }

    pub fn cli_value(self) -> (r: &'static str)
        ensures
            r@ == self.cli_of(),
    {
        match self {
            Source::Standalone => "standalone",
            Source::Org => "cpython",
        }
    }

    pub fn from_cli(s: &str) -> (r: Option<Self>)
        ensures
            r == Self::parse_cli(s@),
    {
        if str_eq(s, "standalone") {
            Some(Source::Standalone)
        } else if str_eq(s, "cpython") || str_eq(s, "org") {
            Some(Source::Org)
        } else {
            None
        }
    }
}

/// One concrete interpreter: a source and a version triple.
#[derive(Clone, Copy, PartialEq, Eq, Debug, Structural)]
pub struct PythonVersion {
    pub source: Source,
    pub major: u32,
    pub minor: u32,
    pub patch: u32,
    /// Free-threaded build (a `t` after the patch number in the id).
    pub freethreaded: bool,
}

/// `<major>.<minor>.<patch>`.
pub open spec fn xyz_of(v: PythonVersion) -> Seq<char> {
    dec(v.major as nat) + "."@ + dec(v.minor as nat) + "."@ + dec(v.patch as nat)
}

/// The canonical id of a version.
pub open spec fn canonical_of(v: PythonVersion) -> Seq<char> {
    "cpython-"@ + xyz_of(v) + (if v.freethreaded {
        "t"@
    } else {
        Seq::empty()
    }) + "-"@ + v.source.suffix_of()
}

/// One piece of a version number, parsed as `u32`.
pub open spec fn piece_of(s: Seq<char>) -> Result<u32, ErrView> {
    match parse_u32(s) {
        Some(n) => Ok(n),
        None => Err(ErrView::Config("非法版本号片段: "@ + s)),
    }
}

/// Exactly three dot-separated pieces.
pub open spec fn triple_of(vnum: Seq<char>) -> Result<(u32, u32, u32), ErrView> {
    let parts = split_char(vnum, '.');
    if parts.len() == 3 {
        match piece_of(parts[0]) {
            Err(e) => Err(e),
            Ok(a) => match piece_of(parts[1]) {
                Err(e) => Err(e),
                Ok(b) => match piece_of(parts[2]) {
                    Err(e) => Err(e),
                    Ok(c) => Ok((a, b, c)),
                },
            },
        }
    } else {
        Err(ErrView::Config("非法版本号: "@ + vnum))
    }
}

/// What `PythonVersion::parse_canonical` gives for an id.
pub open spec fn parse_canonical_of(id: Seq<char>) -> Result<PythonVersion, ErrView> {
    let bad = ErrView::Config("非法 canonical id: "@ + id);
    if !starts_with(id, "cpython-"@) {
        Err(bad)
    } else {
        let rest = id.subrange("cpython-"@.len() as int, id.len() as int);
        match find_last(rest, '-') {
            None => Err(bad),
            Some(k) => {
                let verpart = rest.subrange(0, k);
                let suffix = rest.subrange(k + 1, rest.len() as int);
                if suffix != "standalone"@ && suffix != "org"@ {
                    Err(ErrView::Config("未知来源后缀: "@ + suffix))
                } else {
                    let source = if suffix == "standalone"@ {
                        Source::Standalone
                    } else {
                        Source::Org
                    };
                    let freethreaded = ends_with(verpart, "t"@);
                    let vnum = if freethreaded {
                        verpart.drop_last()
                    } else {
                        verpart
                    };
                    match triple_of(vnum) {
                        Err(e) => Err(e),
                        Ok(t) => Ok(
                            PythonVersion {
                                source,
                                major: t.0,
                                minor: t.1,
                                patch: t.2,
                                freethreaded,
                            },
                        ),
                    }
                }
            },
        }
    }
}

fn piece(s: &str) -> (r: Result<u32, PvmError>)
    ensures
        rv(r) == piece_of(s@),
{
    match parse_u32_str(s) {
        Some(n) => Ok(n),
        None => Err(PvmError::Config(cat("非法版本号片段: ", s))),
    }
}

fn parse_triple(vnum: &str) -> (r: Result<(u32, u32, u32), PvmError>)
    ensures
        rv(r) == triple_of(vnum@),
{
    let parts = split_str(vnum, '.');
    if parts.len() == 3 {
        assert(views(parts@)[0] == parts@[0]@);
        assert(views(parts@)[1] == parts@[1]@);
        assert(views(parts@)[2] == parts@[2]@);
        let a = match piece(parts[0]) {
            Ok(a) => a,
            Err(e) => return Err(e),
        };
        let b = match piece(parts[1]) {
            Ok(b) => b,
            Err(e) => return Err(e),
        };
        let c = match piece(parts[2]) {
            Ok(c) => c,
            Err(e) => return Err(e),
        };
        Ok((a, b, c))
    } else {
        Err(PvmError::Config(cat("非法版本号: ", vnum)))
    }
}

impl PythonVersion {
    /// The canonical id, e.g. `cpython-3.13.14t-standalone`.
    pub fn canonical(&self) -> (r: String)
        ensures
            r@ == canonical_of(*self),
    {
        let mut s = String::from_str("cpython-");
        let x = self.xyz();
        s.append(x.as_str());
        if self.freethreaded {
            s.append("t");
        }
        s.append("-");
        s.append(self.source.id_suffix());
        proof {
            reveal_strlit("");
            if !self.freethreaded {
                assert(s@ =~= canonical_of(*self));
            }
        }
        s
    }

    /// The bare version triple, e.g. `3.12.7`.
    pub fn xyz(&self) -> (r: String)
        ensures
            r@ == xyz_of(*self),
    {
        let mut s = dec_string(self.major as u64);
        s.append(".");
        s.append(dec_string(self.minor as u64).as_str());
        s.append(".");
        s.append(dec_string(self.patch as u64).as_str());
        s
    }

    /// Reads a canonical id back; the inverse of [`PythonVersion::canonical`].
    pub fn parse_canonical(id: &str) -> (r: Result<Self, PvmError>)
        ensures
            rv(r) == parse_canonical_of(id@),
    {
        proof {
            reveal_strlit("cpython-");
        }
        if !starts_with_str(id, "cpython-") {
            return Err(PvmError::Config(cat("非法 canonical id: ", id)));
        }
        let n = id.unicode_len();
        let rest = id.substring_char(8, n);
        match rfind_char(rest, '-') {
            None => Err(PvmError::Config(cat("非法 canonical id: ", id))),
            Some(k) => {
                proof {
                    lemma_rfind_before(rest@, '-', rest@.len() as int);
                }
                let rn = rest.unicode_len();
                let verpart = rest.substring_char(0, k);
                let suffix = rest.substring_char(k + 1, rn);
                let source = if str_eq(suffix, "standalone") {
                    Source::Standalone
                } else if str_eq(suffix, "org") {
                    Source::Org
                } else {
                    return Err(PvmError::Config(cat("未知来源后缀: ", suffix)));
                };
                let freethreaded = ends_with_str(verpart, "t");
                let vnum = if freethreaded {
                    proof {
                        reveal_strlit("t");
                    }
                    let vn = verpart.unicode_len();
                    verpart.substring_char(0, vn - 1)
                } else {
                    verpart
                };
                assert(freethreaded ==> vnum@ =~= verpart@.drop_last());
                match parse_triple(vnum) {
                    Err(e) => Err(e),
                    Ok(t) => Ok(
                        PythonVersion {
                            source,
                            major: t.0,
                            minor: t.1,
                            patch: t.2,
                            freethreaded,
                        },
                    ),
                }
            },
        }
    }
}

/// Rank of a source when two versions differ only in source: ids ending in
/// `org` sort before those ending in `standalone`.
pub open spec fn source_rank(s: Source) -> int {
    match s {
        Source::Org => 0,
        Source::Standalone => 1,
    }
}

/// The order of versions: by (major, minor, patch); at the same triple a
/// free-threaded build sorts below the default build, so that "the highest
/// version" picks the default build; then by source.
pub open spec fn version_lt(a: PythonVersion, b: PythonVersion) -> bool {
    if a.major != b.major {
        a.major < b.major
    } else if a.minor != b.minor {
        a.minor < b.minor
    } else if a.patch != b.patch {
        a.patch < b.patch
    } else if a.freethreaded != b.freethreaded {
        a.freethreaded
    } else {
        source_rank(a.source) < source_rank(b.source)
    }
}

/// Three-way comparison under [`version_lt`].
pub open spec fn order_of(a: PythonVersion, b: PythonVersion) -> Ordering {
    if version_lt(a, b) {
        Ordering::Less
    } else if a == b {
        Ordering::Equal
    } else {
        Ordering::Greater
    }
}

impl PythonVersion {
    /// Three-way comparison of two versions (see [`version_lt`]).
    pub fn cmp(&self, other: &Self) -> (r: Ordering)
        ensures
            r == order_of(*self, *other),
            r == Ordering::Less <==> version_lt(*self, *other),
            r == Ordering::Equal <==> *self == *other,
            r == Ordering::Greater <==> version_lt(*other, *self),
    {
        let a = self;
        let b = other;
        if a.major != b.major {
            if a.major < b.major {
                Ordering::Less
            } else {
                Ordering::Greater
            }
        } else if a.minor != b.minor {
            if a.minor < b.minor {
                Ordering::Less
            } else {
                Ordering::Greater
            }
        } else if a.patch != b.patch {
            if a.patch < b.patch {
                Ordering::Less
            } else {
                Ordering::Greater
            }
        } else if a.freethreaded != b.freethreaded {
            if a.freethreaded {
                Ordering::Less
            } else {
                Ordering::Greater
            }
        } else {
            match (a.source, b.source) {
                (Source::Org, Source::Standalone) => Ordering::Less,
                (Source::Standalone, Source::Org) => Ordering::Greater,
                _ => Ordering::Equal,
            }
        }
    }
}

impl PartialOrd for PythonVersion {
    fn partial_cmp(&self, other: &Self) -> (r: Option<Ordering>) {
        Some(self.cmp(other))
    }
}

impl PartialOrdSpecImpl for PythonVersion {
    open spec fn obeys_partial_cmp_spec() -> bool {
        true
    }

    open spec fn partial_cmp_spec(&self, other: &Self) -> Option<Ordering> {
        Some(order_of(*self, *other))
    }
}

/// The version order is a strict total order: exactly one of `a < b`,
/// `a == b`, `b < a` holds.
pub proof fn lemma_version_order_total(a: PythonVersion, b: PythonVersion)
    ensures
        version_lt(a, b) || a == b || version_lt(b, a),
        !(version_lt(a, b) && version_lt(b, a)),
        !version_lt(a, a),
{
}

/// The version order is transitive.
pub proof fn lemma_version_order_transitive(a: PythonVersion, b: PythonVersion, c: PythonVersion)
    requires
        version_lt(a, b),
        version_lt(b, c),
    ensures
        version_lt(a, c),
{
}

/// `a` sorts strictly before `b`.
pub fn precedes(a: &PythonVersion, b: &PythonVersion) -> (r: bool)
    ensures
        r == version_lt(*a, *b),
{
    if a.major != b.major {
        a.major < b.major
    } else if a.minor != b.minor {
        a.minor < b.minor
    } else if a.patch != b.patch {
        a.patch < b.patch
    } else if a.freethreaded != b.freethreaded {
        a.freethreaded
    } else {
        match (a.source, b.source) {
            (Source::Org, Source::Standalone) => true,
            _ => false,
        }
    }
}

/// Non-decreasing under the version order.
pub open spec fn sorted_versions(s: Seq<PythonVersion>) -> bool {
    forall|i: int, j: int| 0 <= i < j < s.len() ==> !version_lt(#[trigger] s[j], #[trigger] s[i])
}

/// The versions in ascending order (`slice::sort` under the version order).
pub fn sort_versions(v: &Vec<PythonVersion>) -> (r: Vec<PythonVersion>)
    ensures
        r@.to_multiset() == v@.to_multiset(),
        sorted_versions(r@),
{
    broadcast use vstd::seq_lib::group_to_multiset_ensures;

    let mut out: Vec<PythonVersion> = Vec::new();
    let n = v.len();
    let mut i: usize = 0;
    while i < n
        invariant
            n == v@.len(),
            i <= n,
            out@.to_multiset() == v@.subrange(0, i as int).to_multiset(),
            sorted_versions(out@),
        decreases n - i,
    {
        let x = v[i];
        let mut j: usize = 0;
        while j < out.len() && !precedes(&x, &out[j])
            invariant
                j <= out@.len(),
                forall|k: int| 0 <= k < j ==> !version_lt(x, #[trigger] out@[k]),
            decreases out@.len() - j,
        {
            j = j + 1;
        }
        let ghost before = out@;
        out.insert(j, x);
        proof {
            assert(v@.subrange(0, i + 1) =~= v@.subrange(0, i as int).push(x));
            assert(out@ == before.insert(j as int, x));
            vstd::seq_lib::to_multiset_insert(before, j as int, x);
            vstd::seq_lib::to_multiset_build(v@.subrange(0, i as int), x);
            assert(out@.to_multiset() == before.to_multiset().insert(x));
            assert(v@.subrange(0, i + 1).to_multiset() == v@.subrange(0, i as int).to_multiset().insert(
                x,
            ));
            assert forall|p: int, q: int| 0 <= p < q < out@.len() implies !version_lt(
                #[trigger] out@[q],
                #[trigger] out@[p],
            ) by {
                let jj = j as int;
                if q < jj {
                    assert(out@[p] == before[p] && out@[q] == before[q]);
                } else if q == jj {
                    assert(out@[p] == before[p]);
                    lemma_version_order_total(x, before[p]);
                } else if p == jj {
                    assert(out@[q] == before[q - 1]);
                    assert(jj < before.len());
                    assert(version_lt(x, before[jj]));
                    if q - 1 > jj {
                        assert(!version_lt(before[q - 1], before[jj]));
                        lemma_version_order_total(before[q - 1], before[jj]);
                        if version_lt(before[q - 1], x) {
                            lemma_version_order_transitive(before[q - 1], x, before[jj]);
                        }
                    }
                    lemma_version_order_total(before[q - 1], x);
                } else if p > jj {
                    assert(out@[p] == before[p - 1] && out@[q] == before[q - 1]);
                } else {
                    assert(out@[p] == before[p] && out@[q] == before[q - 1]);
                }
            }
        }
        i = i + 1;
    }
    assert(v@.subrange(0, n as int) =~= v@);
    out
}

/// What a user writes to choose a version: `3`, `3.12`, `3.12.7`, `3.13t`,
/// `3.12.7@org`, `latest`, `system` or a full canonical id.
#[derive(Clone, Copy, Debug)]
pub enum VersionSelector {
    Exact { ver: (u32, u32, u32), source: Option<Source>, freethreaded: bool },
    PartialMinor { major: u32, minor: u32, source: Option<Source>, freethreaded: bool },
    PartialMajor { major: u32, source: Option<Source> },
    Latest { source: Option<Source> },
    Canonical(PythonVersion),
    System,
}

/// The source that a selector names, through `@source` or a canonical id.
pub open spec fn selector_source_of(sel: VersionSelector) -> Option<Source> {
    match sel {
        VersionSelector::Exact { source, .. } => source,
        VersionSelector::PartialMinor { source, .. } => source,
        VersionSelector::PartialMajor { source, .. } => source,
        VersionSelector::Latest { source } => source,
        VersionSelector::Canonical(v) => Some(v.source),
        VersionSelector::System => None,
    }
}

/// Whether a selector asks for a free-threaded build.
pub open spec fn selector_ft_of(sel: VersionSelector) -> bool {
    match sel {
        VersionSelector::Exact { freethreaded, .. } => freethreaded,
        VersionSelector::PartialMinor { freethreaded, .. } => freethreaded,
        VersionSelector::Canonical(v) => v.freethreaded,
        _ => false,
    }
}

impl VersionSelector {
    pub fn source(&self) -> (r: Option<Source>)
        ensures
            r == selector_source_of(*self),
    {
        match self {
            VersionSelector::Exact { source, .. } => *source,
            VersionSelector::PartialMinor { source, .. } => *source,
            VersionSelector::PartialMajor { source, .. } => *source,
            VersionSelector::Latest { source } => *source,
            VersionSelector::Canonical(v) => Some(v.source),
            VersionSelector::System => None,
        }
    }

    pub fn freethreaded(&self) -> (r: bool)
        ensures
            r == selector_ft_of(*self),
    {
        match self {
            VersionSelector::Exact { freethreaded, .. } => *freethreaded,
            VersionSelector::PartialMinor { freethreaded, .. } => *freethreaded,
            VersionSelector::Canonical(v) => v.freethreaded,
            _ => false,
        }
    }

    pub fn is_system(&self) -> (r: bool)
        ensures
            r == (*self is System),
    {
        match self {
            VersionSelector::System => true,
            _ => false,
        }
    }
}

/// The version part of a selector, once `@source` is split off.
pub open spec fn selector_body_of(
    s: Seq<char>,
    vpart: Seq<char>,
    source: Option<Source>,
) -> Result<VersionSelector, ErrView> {
    if eq_ignore_case(vpart, "latest"@) {
        Ok(VersionSelector::Latest { source })
    } else {
        let ft = vpart.len() > 0 && (vpart.last() == 't' || vpart.last() == 'T') && contains_char(
            vpart.drop_last(),
            '.',
        );
        let vnum = if ft {
            vpart.drop_last()
        } else {
            vpart
        };
        let parts = split_char(vnum, '.');
        if parts.len() == 3 {
            match piece_of(parts[0]) {
                Err(e) => Err(e),
                Ok(a) => match piece_of(parts[1]) {
                    Err(e) => Err(e),
                    Ok(b) => match piece_of(parts[2]) {
                        Err(e) => Err(e),
                        Ok(c) => Ok(VersionSelector::Exact { ver: (a, b, c), source, freethreaded: ft }),
                    },
                },
            }
        } else if parts.len() == 2 {
            match piece_of(parts[0]) {
                Err(e) => Err(e),
                Ok(a) => match piece_of(parts[1]) {
                    Err(e) => Err(e),
                    Ok(b) => Ok(
                        VersionSelector::PartialMinor { major: a, minor: b, source, freethreaded: ft },
                    ),
                },
            }
        } else if parts.len() == 1 {
            match piece_of(parts[0]) {
                Err(e) => Err(e),
                Ok(a) => Ok(VersionSelector::PartialMajor { major: a, source }),
            }
        } else {
            Err(ErrView::Config("无法解析版本选择符: "@ + s))
        }
    }
}

/// What `parse_selector` gives for a user's input.
pub open spec fn parse_selector_of(raw: Seq<char>) -> Result<VersionSelector, ErrView> {
    let s = trim(raw);
    if s.len() == 0 {
        Err(ErrView::Config("空版本选择符"@))
    } else if starts_with(s, "cpython-"@) {
        match parse_canonical_of(s) {
            Ok(v) => Ok(VersionSelector::Canonical(v)),
            Err(e) => Err(e),
        }
    } else if eq_ignore_case(s, "system"@) {
        Ok(VersionSelector::System)
    } else {
        match find_first(s, '@') {
            Some(i) => {
                let src = s.subrange(i + 1, s.len() as int);
                match Source::parse_cli(src) {
                    None => Err(ErrView::Config("未知来源: "@ + src)),
                    Some(so) => selector_body_of(s, s.subrange(0, i), Some(so)),
                }
            },
            None => selector_body_of(s, s, None),
        }
    }
}

fn selector_body(s: &str, vpart: &str, source: Option<Source>) -> (r: Result<
    VersionSelector,
    PvmError,
>)
    ensures
        rv(r) == selector_body_of(s@, vpart@, source),
{
    if eq_ignore_case_str(vpart, "latest") {
        return Ok(VersionSelector::Latest { source });
    }
    let vn = vpart.unicode_len();
    let mut ft = false;
    if vn > 0 {
        let last = vpart.get_char(vn - 1);
        if last == 't' || last == 'T' {
            let head = vpart.substring_char(0, vn - 1);
            proof {
                lemma_find_first_contains(head@, '.');
                assert(head@ =~= vpart@.drop_last());
            }
            if find_char(head, '.').is_some() {
                ft = true;
            }
        }
    }
    let vnum = if ft {
        vpart.substring_char(0, vn - 1)
    } else {
        vpart
    };
    assert(ft ==> vnum@ =~= vpart@.drop_last());
    let parts = split_str(vnum, '.');
    let np = parts.len();
    assert(np > 0 ==> views(parts@)[0] == parts@[0]@);
    assert(np > 1 ==> views(parts@)[1] == parts@[1]@);
    assert(np > 2 ==> views(parts@)[2] == parts@[2]@);
    if np == 3 {
        let a = match piece(parts[0]) {
            Ok(a) => a,
            Err(e) => return Err(e),
        };
        let b = match piece(parts[1]) {
            Ok(b) => b,
            Err(e) => return Err(e),
        };
        let c = match piece(parts[2]) {
            Ok(c) => c,
            Err(e) => return Err(e),
        };
        Ok(VersionSelector::Exact { ver: (a, b, c), source, freethreaded: ft })
    } else if np == 2 {
        let a = match piece(parts[0]) {
            Ok(a) => a,
            Err(e) => return Err(e),
        };
        let b = match piece(parts[1]) {
            Ok(b) => b,
            Err(e) => return Err(e),
        };
        Ok(VersionSelector::PartialMinor { major: a, minor: b, source, freethreaded: ft })
    } else if np == 1 {
        let a = match piece(parts[0]) {
            Ok(a) => a,
            Err(e) => return Err(e),
        };
        Ok(VersionSelector::PartialMajor { major: a, source })
    } else {
        Err(PvmError::Config(cat("无法解析版本选择符: ", s)))
    }
}

/// Reads a version selector.
pub fn parse_selector(raw: &str) -> (r: Result<VersionSelector, PvmError>)
    ensures
        rv(r) == parse_selector_of(raw@),
{
    let s = trim_str(raw);
    if s.unicode_len() == 0 {
        return Err(PvmError::Config(String::from_str("空版本选择符")));
    }
    if starts_with_str(s, "cpython-") {
        return match PythonVersion::parse_canonical(s) {
            Ok(v) => Ok(VersionSelector::Canonical(v)),
            Err(e) => Err(e),
        };
    }
    if eq_ignore_case_str(s, "system") {
        return Ok(VersionSelector::System);
    }
    let n = s.unicode_len();
    match find_char(s, '@') {
        Some(i) => {
            proof {
                crate::text::lemma_find_from(s@, '@', 0);
            }
            let src = s.substring_char(i + 1, n);
            match Source::from_cli(src) {
                None => Err(PvmError::Config(cat("未知来源: ", src))),
                Some(so) => selector_body(s, s.substring_char(0, i), Some(so)),
            }
        },
        None => selector_body(s, s, None),
    }
}

/// The source that a selector's text names, read as a source name: for a
/// canonical id the part after its last `-`, otherwise the part after the
/// first `@`; none for `system` and for text with neither.
pub open spec fn named_source_of(raw: Seq<char>) -> Option<Source> {
    let s = trim(raw);
    if starts_with(s, "cpython-"@) {
        let rest = s.subrange("cpython-"@.len() as int, s.len() as int);
        match find_last(rest, '-') {
            Some(k) => Source::parse_cli(rest.subrange(k + 1, rest.len() as int)),
            None => None,
        }
    } else if eq_ignore_case(s, "system"@) {
        None
    } else {
        match find_first(s, '@') {
            Some(i) => Source::parse_cli(s.subrange(i + 1, s.len() as int)),
            None => None,
        }
    }
}

/// A selector read from text carries the source that the text names
/// (through a canonical id's suffix or an `@source` suffix), and none
/// otherwise; `system` carries none.
pub proof fn lemma_selector_source(raw: Seq<char>, sel: VersionSelector)
    requires
        parse_selector_of(raw) == Ok::<VersionSelector, ErrView>(sel),
    ensures
        selector_source_of(sel) == named_source_of(raw),
        sel is System ==> selector_source_of(sel) is None,
{
    reveal_strlit("standalone");
    reveal_strlit("cpython");
    reveal_strlit("org");
    assert("org"@ != "standalone"@ && "org"@ != "cpython"@) by {
        assert("org"@.len() != "standalone"@.len() && "org"@.len() != "cpython"@.len());
    }
}

/// Distinct versions have distinct canonical ids: an id names one version.
pub proof fn lemma_canonical_injective(a: PythonVersion, b: PythonVersion)
    requires
        canonical_of(a) == canonical_of(b),
    ensures
        a == b,
{
    lemma_canonical_roundtrip(a);
    lemma_canonical_roundtrip(b);
}

/// The command-line name and the id suffix of a source both read back as
/// that source.
pub proof fn lemma_source_names_roundtrip(s: Source)
    ensures
        Source::parse_cli(s.cli_of()) == Some(s),
        Source::parse_cli(s.suffix_of()) == Some(s),
{
    reveal_strlit("standalone");
    reveal_strlit("cpython");
    reveal_strlit("org");
    assert("standalone"@.len() == 10 && "cpython"@.len() == 7 && "org"@.len() == 3);
    assert("standalone"@ != "cpython"@ && "standalone"@ != "org"@);
}

/// A canonical id, given as a selector, selects exactly that version.
pub proof fn lemma_selector_of_canonical(v: PythonVersion)
    ensures
        parse_selector_of(canonical_of(v)) == Ok::<VersionSelector, ErrView>(
            VersionSelector::Canonical(v),
        ),
{
    reveal_strlit("cpython-");
    reveal_strlit("standalone");
    reveal_strlit("org");
    lemma_canonical_roundtrip(v);
    let id = canonical_of(v);
    let sfx = v.source.suffix_of();
    assert(id[0] == 'c');
    assert(id.last() == sfx.last());
    assert(!is_ws(id[0]));
    assert(!is_ws(id.last()));
    assert(id.subrange(0, id.len() as int) =~= id);
    assert(trim(id) == id);
    assert(id.subrange(0, 8) =~= "cpython-"@);
}

/// Canonical ids are lossless: reading back the id of a version, free-threaded
/// or not, from either source, gives that version.
#[verifier::rlimit(40)]
pub proof fn lemma_canonical_roundtrip(v: PythonVersion)
    ensures
        parse_canonical_of(canonical_of(v)) == Ok::<PythonVersion, ErrView>(v),
{
    reveal_strlit("cpython-");
    reveal_strlit(".");
    reveal_strlit("t");
    reveal_strlit("-");
    reveal_strlit("standalone");
    reveal_strlit("org");
    let a = dec(v.major as nat);
    let b = dec(v.minor as nat);
    let c = dec(v.patch as nat);
    lemma_dec(v.major as nat);
    lemma_dec(v.minor as nat);
    lemma_dec(v.patch as nat);
    let x = xyz_of(v);
    assert(x =~= a + seq!['.'] + b + seq!['.'] + c);
    let t: Seq<char> = if v.freethreaded {
        seq!['t']
    } else {
        Seq::empty()
    };
    let sfx = v.source.suffix_of();
    let id = canonical_of(v);
    assert(id =~= "cpython-"@ + (x + t + seq!['-'] + sfx));
    assert(id.subrange(0, 8) =~= "cpython-"@);
    let rest = id.subrange(8, id.len() as int);
    assert(rest =~= x + t + seq!['-'] + sfx);
    let k = (x.len() + t.len()) as int;
    assert(rest[k] == '-');
    assert forall|m: int| k < m < rest.len() implies rest[m] != '-' by {
        assert(rest[m] == sfx[m - k - 1]);
    }
    lemma_rfind_at(rest, '-', rest.len() as int, k);
    let verpart = rest.subrange(0, k);
    assert(verpart =~= x + t);
    assert(rest.subrange(k + 1, rest.len() as int) =~= sfx);
    assert(x.last() == c.last());
    lemma_digit_not_sep(c.last());
    if v.freethreaded {
        assert(verpart.subrange(verpart.len() - 1, verpart.len() as int) =~= "t"@);
        assert(verpart.drop_last() =~= x);
    } else {
        assert(verpart.subrange(verpart.len() - 1, verpart.len() as int)[0] == c.last());
        assert(verpart =~= x);
    }
    lemma_split_three(a, b, c);
    lemma_parse_dec(v.major);
    lemma_parse_dec(v.minor);
    lemma_parse_dec(v.patch);
}

} // verus!
