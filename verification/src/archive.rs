//! Archives: their kinds, and which member paths may be unpacked.
use vstd::prelude::*;

verus! {

/// The archive formats that builds come in.
#[derive(Clone, Copy, PartialEq, Eq, Debug, Structural)]
pub enum ArchiveKind {
    TarGz,
    TarZst,
    Zip,
}

/// One component of a member path, as the platform's path parser splits it.
pub enum PathPart {
    /// A plain name.
    Normal(String),
    /// `.`
    CurDir,
    /// `..`
    ParentDir,
    /// A leading separator.
    RootDir,
    /// A drive or UNC prefix.
    Prefix,
}

pub open spec fn part_names(parts: Seq<PathPart>) -> Seq<Seq<char>>
    decreases parts.len(),
{
    if parts.len() == 0 {
        Seq::empty()
    } else {
        let rest = part_names(parts.drop_last());
        match parts.last() {
            PathPart::Normal(n) => rest.push(n@),
            _ => rest,
        }
    }
}

/// A member path is refused where it climbs out (`..`) or is rooted
/// (a leading separator or a drive); else the names it is made of, with `.`
/// left out.
pub open spec fn sanitize_of(parts: Seq<PathPart>) -> Option<Seq<Seq<char>>> {
    if exists|i: int|
        0 <= i < parts.len() && (#[trigger] parts[i] matches PathPart::ParentDir || parts[i] matches PathPart::RootDir
            || parts[i] matches PathPart::Prefix) {
        None
    } else {
        Some(part_names(parts))
    }
}

pub open spec fn string_views(v: Seq<String>) -> Seq<Seq<char>> {
    v.map_values(|s: String| s@)
}

/// The components to unpack a member under, or `None` where it is refused.
pub fn sanitize(parts: &Vec<PathPart>) -> (r: Option<Vec<String>>)
    ensures
        match r {
            Some(v) => sanitize_of(parts@) == Some(string_views(v@)),
            None => sanitize_of(parts@) is None,
        },
{
    let mut out: Vec<String> = Vec::new();
    let mut i: usize = 0;
    while i < parts.len()
        invariant
            i <= parts@.len(),
            string_views(out@) == part_names(parts@.take(i as int)),
            forall|k: int|
                0 <= k < i ==> !(#[trigger] parts@[k] matches PathPart::ParentDir || parts@[k] matches PathPart::RootDir
                    || parts@[k] matches PathPart::Prefix),
        decreases parts@.len() - i,
    {
        proof {
            assert(parts@.take(i + 1).drop_last() =~= parts@.take(i as int));
            assert(parts@.take(i + 1).last() == parts@[i as int]);
        }
        match &parts[i] {
            PathPart::Normal(n) => {
                let ghost before = out@;
                out.push(n.clone());
                assert(string_views(out@) =~= string_views(before).push(n@));
            },
            PathPart::CurDir => {},
            _ => {
                return None;
            },
        }
        i = i + 1;
    }
    assert(parts@.take(parts@.len() as int) =~= parts@);
    Some(out)
}

} // verus!
