//! Release numbers as published upstream: `major.minor.patch` read with the
//! rules of Semantic Versioning, and the comparison of two version strings.
use crate::text::{all_digits, digits_value, lex_lt, split_char, split_str, views, str_lt};
use vstd::prelude::*;

verus! {

/// A published release `major.minor.patch`.
#[derive(Clone, Copy, PartialEq, Eq, Debug, Structural)]
pub struct ReleaseVersion {
    pub major: u64,
    pub minor: u64,
    pub patch: u64,
}

/// The order of releases: by major, then minor, then patch.
pub open spec fn release_lt(a: ReleaseVersion, b: ReleaseVersion) -> bool {
    a.major < b.major || (a.major == b.major && (a.minor < b.minor || (a.minor == b.minor
        && a.patch < b.patch)))
}

/// `a` sorts before `b`.
pub fn release_precedes(a: &ReleaseVersion, b: &ReleaseVersion) -> (r: bool)
    ensures
        r == release_lt(*a, *b),
{
    a.major < b.major || (a.major == b.major && (a.minor < b.minor || (a.minor == b.minor
        && a.patch < b.patch)))
}

/// Three dot-separated runs of ASCII digits, each nonempty.
pub open spec fn dotted_triple(s: Seq<char>) -> bool {
    let parts = split_char(s, '.');
    &&& parts.len() == 3
    &&& forall|i: int| 0 <= i < 3 ==> #[trigger] parts[i].len() > 0 && all_digits(parts[i])
}

/// A numeric identifier of Semantic Versioning: no leading zero (but `0`
/// itself), and a value that fits in `u64`.
pub open spec fn semver_number(s: Seq<char>) -> Option<u64> {
    if s.len() > 0 && all_digits(s) && !(s.len() > 1 && s[0] == '0') && digits_value(s)
        <= u64::MAX {
        Some(digits_value(s) as u64)
    } else {
        None
    }
}

/// What Semantic Versioning reads from a dotted triple of digit runs.
pub open spec fn semver_triple_of(s: Seq<char>) -> Option<ReleaseVersion> {
    let parts = split_char(s, '.');
    match (semver_number(parts[0]), semver_number(parts[1]), semver_number(parts[2])) {
        (Some(a), Some(b), Some(c)) => Some(ReleaseVersion { major: a, minor: b, patch: c }),
        _ => None,
    }
}

/// `semver::Version::parse` on a dotted triple of digit runs. The crate's
/// numeric identifiers refuse a leading zero and a value above `u64::MAX`;
/// with no pre-release and no build part the parsed version is the triple.
#[verifier::external_body]
fn semver_parse_triple(s: &str) -> (r: Option<ReleaseVersion>)
    requires
        dotted_triple(s@),
    ensures
        r == semver_triple_of(s@),
{
    match semver::Version::parse(s) {
        Ok(v) => Some(ReleaseVersion { major: v.major, minor: v.minor, patch: v.patch }),
        Err(_) => None,
    }
}

/// Reads a release number written `X.Y.Z` with ASCII digits; `None` where
/// Semantic Versioning refuses it.
pub fn parse_release(s: &str) -> (r: Option<ReleaseVersion>)
    ensures
        r == (if dotted_triple(s@) {
            semver_triple_of(s@)
        } else {
            None
        }),
{
    if is_dotted_triple(s) {
        semver_parse_triple(s)
    } else {
        None
    }
}

fn all_digits_str(s: &str) -> (r: bool)
    ensures
        r == (s@.len() > 0 && all_digits(s@)),
{
    let n = s.unicode_len();
    if n == 0 {
        return false;
    }
    let mut i: usize = 0;
    while i < n
        invariant
            n == s@.len(),
            i <= n,
            forall|k: int| 0 <= k < i ==> crate::text::is_digit(#[trigger] s@[k]),
        decreases n - i,
    {
        let c = s.get_char(i);
        if !('0' <= c && c <= '9') {
            return false;
        }
        i = i + 1;
    }
    true
}

/// Whether `s` is three nonempty runs of ASCII digits joined by dots.
pub fn is_dotted_triple(s: &str) -> (r: bool)
    ensures
        r == dotted_triple(s@),
{
    let parts = split_str(s, '.');
    if parts.len() != 3 {
        return false;
    }
    assert(views(parts@)[0] == parts@[0]@);
    assert(views(parts@)[1] == parts@[1]@);
    assert(views(parts@)[2] == parts@[2]@);
    let a = all_digits_str(parts[0]);
    let b = all_digits_str(parts[1]);
    let c = all_digits_str(parts[2]);
    proof {
        let ps = split_char(s@, '.');
        if !(a && b && c) {
            if !a {
                assert(!(ps[0].len() > 0 && all_digits(ps[0])));
            } else if !b {
                assert(!(ps[1].len() > 0 && all_digits(ps[1])));
            } else {
                assert(!(ps[2].len() > 0 && all_digits(ps[2])));
            }
        } else {
            assert forall|i: int| 0 <= i < 3 implies #[trigger] ps[i].len() > 0 && all_digits(
                ps[i],
            ) by {
                if i == 0 {
                } else if i == 1 {
                } else {
                }
            }
        }
    }
    a && b && c
}

/// Whether `semver::Version::parse` reads both `a` and `b`, and if so
/// whether `a` is the greater version (pre-release and build parts taken
/// into account as the crate orders them).
pub uninterp spec fn semver_gt_of(a: Seq<char>, b: Seq<char>) -> Option<bool>;

/// What Semantic Versioning says of `a > b` for two dotted triples: whether
/// both parse, and if so whether `a` is the later release.
pub open spec fn triples_gt_of(a: Seq<char>, b: Seq<char>) -> Option<bool> {
    match (semver_triple_of(a), semver_triple_of(b)) {
        (Some(x), Some(y)) => Some(release_lt(y, x)),
        _ => None,
    }
}

/// `semver::Version::parse` on both strings, then `>` on the two versions.
/// The crate's order on versions that carry pre-release or build parts is
/// left to the name; where both strings are dotted triples the contract
/// states the result.
#[verifier::external_body]
fn semver_gt(a: &str, b: &str) -> (r: Option<bool>)
    ensures
        r == semver_gt_of(a@, b@),
        dotted_triple(a@) && dotted_triple(b@) ==> r == triples_gt_of(a@, b@),
{
    match (semver::Version::parse(a), semver::Version::parse(b)) {
        (Ok(x), Ok(y)) => Some(x > y),
        _ => None,
    }
}

/// `a > b` between two version strings: by Semantic Versioning where both
/// parse, else by the order of the strings.
pub open spec fn version_gt_of(a: Seq<char>, b: Seq<char>, semver: Option<bool>) -> bool {
    match semver {
        Some(g) => g,
        None => lex_lt(b, a),
    }
}

/// `a > b` given what Semantic Versioning said of the pair.
pub fn version_gt_from(a: &str, b: &str, semver: Option<bool>) -> (r: bool)
    ensures
        r == version_gt_of(a@, b@, semver),
{
    match semver {
        Some(g) => g,
        None => str_lt(b, a),
    }
}

/// `a > b` between two version strings.
pub fn version_gt(a: &str, b: &str) -> (r: bool)
    ensures
        r == version_gt_of(a@, b@, semver_gt_of(a@, b@)),
        dotted_triple(a@) && dotted_triple(b@) ==> r == version_gt_of(a@, b@, triples_gt_of(a@, b@)),
{
    let s = semver_gt(a, b);
    version_gt_from(a, b, s)
}

} // verus!
