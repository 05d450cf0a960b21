//! python-build-standalone: release asset names, choosing assets, and where
//! an unpacked build is checked and placed.
use crate::error::{ErrView, PvmError};
use crate::paths::{join, join_of, versions_of, Paths};
use crate::release::{
    dotted_triple, parse_release, release_lt, release_precedes, semver_triple_of, ReleaseVersion,
};
use crate::text::{
    contains_char, ends_with, ends_with_str, find_char, find_first, has_sub,
    contains_str, lemma_find_from, lemma_lex_total, lemma_lex_transitive, lex_lt, starts_with,
    starts_with_str, str_lt, cat,
};
use crate::version::{canonical_of, PythonVersion};
use vstd::prelude::*;

verus! {

/// Which archive of a build.
#[derive(Clone, Copy, PartialEq, Eq, Debug, Structural)]
pub enum PbsFlavor {
    InstallOnly,
    InstallOnlyStripped,
    PgoFull,
}

pub open spec fn flavor_suffix_of(f: PbsFlavor) -> Seq<char> {
    match f {
        PbsFlavor::InstallOnly => "install_only.tar.gz"@,
        PbsFlavor::InstallOnlyStripped => "install_only_stripped.tar.gz"@,
        PbsFlavor::PgoFull => "pgo-full.tar.zst"@,
    }
}

impl PbsFlavor {
    pub fn suffix(self) -> (r: &'static str)
        ensures
            r@ == flavor_suffix_of(self),
    {
        match self {
            PbsFlavor::InstallOnly => "install_only.tar.gz",
            PbsFlavor::InstallOnlyStripped => "install_only_stripped.tar.gz",
            PbsFlavor::PgoFull => "pgo-full.tar.zst",
        }
    }

    /// Only the full build is packed with zstd.
    pub fn is_zstd(self) -> (r: bool)
        ensures
            r == (self == PbsFlavor::PgoFull),
    {
        match self {
            PbsFlavor::PgoFull => true,
            _ => false,
        }
    }
}


/// One downloadable build of a release.
pub struct PbsAsset {
    pub python_version: ReleaseVersion,
    pub release_date: String,
    pub freethreaded: bool,
    pub flavor: PbsFlavor,
    pub download_url: String,
    pub size: u64,
    pub sha256: Option<String>,
    pub file_name: String,
}

/// The values of a [`PbsAsset`].
pub struct AssetView {
    pub python_version: ReleaseVersion,
    pub release_date: Seq<char>,
    pub freethreaded: bool,
    pub flavor: PbsFlavor,
    pub download_url: Seq<char>,
    pub size: u64,
    pub sha256: Option<Seq<char>>,
    pub file_name: Seq<char>,
}

pub open spec fn opt_view(o: Option<String>) -> Option<Seq<char>> {
    match o {
        Some(s) => Some(s@),
        None => None,
    }
}

impl View for PbsAsset {
    type V = AssetView;

    open spec fn view(&self) -> AssetView {
        AssetView {
            python_version: self.python_version,
            release_date: self.release_date@,
            freethreaded: self.freethreaded,
            flavor: self.flavor,
            download_url: self.download_url@,
            size: self.size,
            sha256: opt_view(self.sha256),
            file_name: self.file_name@,
        }
    }
}

/// The parts of a release asset's file name
/// `cpython-<X.Y.Z>+<YYYYMMDD>-x86_64-pc-windows-msvc-<rest>.tar.<gz|zst>`:
/// the version, the date (eight decimal digits as the `regex` crate's `\d`
/// reads them) and the rest, where `rest` is nonempty and holds no line feed.
pub open spec fn name_parts_of(name: Seq<char>) -> Option<(Seq<char>, Seq<char>, Seq<char>)> {
    let pre = "cpython-"@;
    let mid = "-x86_64-pc-windows-msvc-"@;
    if !starts_with(name, pre) {
        None
    } else {
        let t = name.subrange(pre.len() as int, name.len() as int);
        match find_first(t, '+') {
            None => None,
            Some(k) => {
                let ver = t.subrange(0, k);
                let u = t.subrange(k + 1, t.len() as int);
                if !(dotted_triple(ver) && u.len() >= 8 + mid.len() && crate::text::all_nd_digits(u.subrange(0, 8))
                    && u.subrange(8, 8 + mid.len() as int) == mid) {
                    None
                } else {
                    let w = u.subrange(8 + mid.len() as int, u.len() as int);
                    let cut: int = if ends_with(w, ".tar.gz"@) {
                        7
                    } else if ends_with(w, ".tar.zst"@) {
                        8
                    } else {
                        0
                    };
                    let rest = w.subrange(0, w.len() - cut);
                    if cut == 0 || rest.len() == 0 || contains_char(rest, '\n') {
                        None
                    } else {
                        Some((ver, u.subrange(0, 8), rest))
                    }
                }
            },
        }
    }
}

/// The flavor named at the end of the rest of an asset name.
pub open spec fn flavor_of_rest(rest: Seq<char>) -> Option<PbsFlavor> {
    if ends_with(rest, "install_only_stripped"@) {
        Some(PbsFlavor::InstallOnlyStripped)
    } else if ends_with(rest, "install_only"@) {
        Some(PbsFlavor::InstallOnly)
    } else if has_sub(rest, "pgo-full"@) {
        Some(PbsFlavor::PgoFull)
    } else {
        None
    }
}

/// The checksum of a `sha256:<hex>` digest.
pub open spec fn digest_sha_of(digest: Option<Seq<char>>) -> Option<Seq<char>> {
    match digest {
        Some(d) => if starts_with(d, "sha256:"@) {
            Some(d.subrange(7, d.len() as int))
        } else {
            None
        },
        None => None,
    }
}

/// The asset a release lists under `name`, with its download URL, size and
/// digest; `None` where the name is not that of a Windows x86-64 build of a
/// known flavor, the release number is refused, or no URL is given.
pub open spec fn parse_asset_of(
    name: Seq<char>,
    url: Option<Seq<char>>,
    size: Option<u64>,
    digest: Option<Seq<char>>,
) -> Option<AssetView> {
    match name_parts_of(name) {
        None => None,
        Some(parts) => match semver_triple_of(parts.0) {
            None => None,
            Some(ver) => match flavor_of_rest(parts.2) {
                None => None,
                Some(flavor) => match url {
                    None => None,
                    Some(u) => Some(
                        AssetView {
                            python_version: ver,
                            release_date: parts.1,
                            freethreaded: has_sub(parts.2, "freethreaded"@),
                            flavor,
                            download_url: u,
                            size: match size {
                                Some(n) => n,
                                None => 0,
                            },
                            sha256: digest_sha_of(digest),
                            file_name: name,
                        },
                    ),
                },
            },
        },
    }
}

fn name_parts(name: &str) -> (r: Option<(&str, &str, &str)>)
    ensures
        match r {
            Some(p) => name_parts_of(name@) == Some((p.0@, p.1@, p.2@)),
            None => name_parts_of(name@) is None,
        },
{
    proof {
        reveal_strlit("cpython-");
        reveal_strlit("-x86_64-pc-windows-msvc-");
        reveal_strlit(".tar.gz");
        reveal_strlit(".tar.zst");
    }
    if !starts_with_str(name, "cpython-") {
        return None;
    }
    let n = name.unicode_len();
    let t = name.substring_char(8, n);
    let tn = t.unicode_len();
    match find_char(t, '+') {
        None => None,
        Some(k) => {
            proof {
                lemma_find_from(t@, '+', 0);
            }
            let ver = t.substring_char(0, k);
            let u = t.substring_char(k + 1, tn);
            let un = u.unicode_len();
            let mid = "-x86_64-pc-windows-msvc-";
            if !crate::release::is_dotted_triple(ver) || un < 32 {
                return None;
            }
            let date = u.substring_char(0, 8);
            let dash = u.substring_char(8, 32);
            if !crate::text::all_nd_digits_str(date) || !crate::text::str_eq(dash, mid) {
                return None;
            }
            let w = u.substring_char(32, un);
            let wn = w.unicode_len();
            let cut: usize = if ends_with_str(w, ".tar.gz") {
                7
            } else if ends_with_str(w, ".tar.zst") {
                8
            } else {
                0
            };
            if cut == 0 || wn <= cut {
                return None;
            }
            let rest = w.substring_char(0, wn - cut);
            if crate::text::find_char(rest, '\n').is_some() {
                proof {
                    lemma_find_from(rest@, '\n', 0);
                }
                return None;
            }
            proof {
                lemma_find_from(rest@, '\n', 0);
            }
            Some((ver, date, rest))
        },
    }
}

fn flavor_of(rest: &str) -> (r: Option<PbsFlavor>)
    ensures
        r == flavor_of_rest(rest@),
{
    if ends_with_str(rest, "install_only_stripped") {
        Some(PbsFlavor::InstallOnlyStripped)
    } else if ends_with_str(rest, "install_only") {
        Some(PbsFlavor::InstallOnly)
    } else if contains_str(rest, "pgo-full") {
        Some(PbsFlavor::PgoFull)
    } else {
        None
    }
}

fn digest_sha(digest: Option<&str>) -> (r: Option<String>)
    ensures
        opt_view(r) == digest_sha_of(match digest {
            Some(d) => Some(d@),
            None => None,
        }),
{
    proof {
        reveal_strlit("sha256:");
    }
    match digest {
        Some(d) => if starts_with_str(d, "sha256:") {
            let n = d.unicode_len();
            Some(String::from_str(d.substring_char(7, n)))
        } else {
            None
        },
        None => None,
    }
}

/// Reads one asset of a release: its file name, download URL, size and
/// digest as the release listing gives them.
pub fn parse_asset(name: &str, url: Option<&str>, size: Option<u64>, digest: Option<&str>) -> (r:
    Option<PbsAsset>)
    ensures
        match r {
            Some(a) => parse_asset_of(
                name@,
                match url {
                    Some(u) => Some(u@),
                    None => None,
                },
                size,
                match digest {
                    Some(d) => Some(d@),
                    None => None,
                },
            ) == Some(a@),
            None => parse_asset_of(
                name@,
                match url {
                    Some(u) => Some(u@),
                    None => None,
                },
                size,
                match digest {
                    Some(d) => Some(d@),
                    None => None,
                },
            ) is None,
        },
{
    let (ver, date, rest) = match name_parts(name) {
        Some(p) => p,
        None => return None,
    };
    let rv = match parse_release(ver) {
        Some(v) => v,
        None => return None,
    };
    let flavor = match flavor_of(rest) {
        Some(f) => f,
        None => return None,
    };
    let u = match url {
        Some(u) => u,
        None => return None,
    };
    let freethreaded = contains_str(rest, "freethreaded");
    let sz = match size {
        Some(n) => n,
        None => 0,
    };
    Some(
        PbsAsset {
            python_version: rv,
            release_date: String::from_str(date),
            freethreaded,
            flavor,
            download_url: String::from_str(u),
            size: sz,
            sha256: digest_sha(digest),
            file_name: String::from_str(name),
        },
    )
}

/// The assets that a listing keeps: the wanted flavor and threading.
pub open spec fn kept(a: AssetView, flavor: PbsFlavor, freethreaded: bool) -> bool {
    a.flavor == flavor && a.freethreaded == freethreaded
}

/// Asset `i` is the one chosen for its release among the kept assets of
/// `all[..upto]`: no kept asset of the same release has a later date, and
/// none with the same date comes before it.
#[verifier::opaque]
pub open spec fn picked_within(
    all: Seq<AssetView>,
    i: int,
    upto: int,
    flavor: PbsFlavor,
    freethreaded: bool,
) -> bool {
    &&& 0 <= i < upto
    &&& kept(all[i], flavor, freethreaded)
    &&& forall|j: int|
        0 <= j < upto && kept(#[trigger] all[j], flavor, freethreaded) && all[j].python_version
            == all[i].python_version ==> lex_lt(all[j].release_date, all[i].release_date) || (
        all[j].release_date == all[i].release_date && i <= j)
}

/// `a` is asset `i` of `all`, and that asset is the one chosen for its
/// release.
pub open spec fn is_pick(
    all: Seq<PbsAsset>,
    i: int,
    a: PbsAsset,
    flavor: PbsFlavor,
    freethreaded: bool,
) -> bool {
    picked_within(asset_views(all), i, all.len() as int, flavor, freethreaded) && a == all[i]
}

/// `a` is the asset chosen for its release among `all`.
pub open spec fn chosen(all: Seq<PbsAsset>, a: PbsAsset, flavor: PbsFlavor, freethreaded: bool) -> bool {
    exists|i: int| #[trigger] is_pick(all, i, a, flavor, freethreaded)
}

pub open spec fn asset_views(s: Seq<PbsAsset>) -> Seq<AssetView> {
    s.map_values(|a: PbsAsset| a@)
}

/// The listing of releases: one asset per release, the newest build of it,
/// newest release first.
pub open spec fn listing_spec(
    all: Seq<PbsAsset>,
    r: Seq<PbsAsset>,
    flavor: PbsFlavor,
    freethreaded: bool,
) -> bool {
    &&& forall|k: int| 0 <= k < r.len() ==> chosen(all, #[trigger] r[k], flavor, freethreaded)
    &&& forall|i: int|
        #![trigger all[i]]
        0 <= i < all.len() && kept(all[i]@, flavor, freethreaded) ==> exists|k: int|
            0 <= k < r.len() && r[k].python_version == all[i].python_version
    &&& forall|p: int, q: int|
        0 <= p < q < r.len() ==> release_lt(#[trigger] r[q].python_version, #[trigger] r[p].python_version)
}

/// `a` is one of the assets of `all`.
pub open spec fn listed_in(all: Seq<PbsAsset>, a: PbsAsset) -> bool {
    exists|i: int| 0 <= i < all.len() && #[trigger] all[i] == a
}

/// The chosen asset `all[m]` carries the latest date among the kept assets
/// of its version.
proof fn lemma_pick_latest(all: Seq<PbsAsset>, m: int, i: int, flavor: PbsFlavor, freethreaded: bool)
    requires
        picked_within(asset_views(all), m, all.len() as int, flavor, freethreaded),
        0 <= i < all.len(),
        kept(all[i]@, flavor, freethreaded),
        all[i].python_version == all[m].python_version,
    ensures
        kept(all[m]@, flavor, freethreaded),
        !lex_lt(all[m].release_date@, all[i].release_date@),
{
    reveal(picked_within);
    let views = asset_views(all);
    assert(views[m] == all[m]@);
    assert(views[i] == all[i]@);
    lemma_lex_total(all[i].release_date@, all[m].release_date@);
}

/// What a release listing gives: each listed asset is one of `all`, of the
/// wanted flavor and threading, and carries the latest release date among
/// those assets of its version; every version of such an asset is listed;
/// versions come strictly newest first, so none twice.
pub proof fn lemma_listing(all: Seq<PbsAsset>, r: Seq<PbsAsset>, flavor: PbsFlavor, freethreaded: bool)
    requires
        listing_spec(all, r, flavor, freethreaded),
    ensures
        forall|k: int| 0 <= k < r.len() ==> listed_in(all, #[trigger] r[k]),
        forall|k: int| 0 <= k < r.len() ==> kept(#[trigger] r[k]@, flavor, freethreaded),
        forall|k: int, i: int|
            0 <= k < r.len() && 0 <= i < all.len() && kept(all[i]@, flavor, freethreaded)
                && #[trigger] all[i].python_version == #[trigger] r[k].python_version ==> !lex_lt(
                r[k].release_date@,
                all[i].release_date@,
            ),
        forall|i: int|
            #![trigger all[i]]
            0 <= i < all.len() && kept(all[i]@, flavor, freethreaded) ==> exists|k: int|
                0 <= k < r.len() && r[k].python_version == all[i].python_version,
        forall|p: int, q: int|
            0 <= p < q < r.len() ==> release_lt(
                #[trigger] r[q].python_version,
                #[trigger] r[p].python_version,
            ),
{
    assert forall|k: int| 0 <= k < r.len() implies listed_in(all, #[trigger] r[k]) && kept(
        r[k]@,
        flavor,
        freethreaded,
    ) by {
        assert(chosen(all, r[k], flavor, freethreaded));
        let m = choose|m: int| #[trigger] is_pick(all, m, r[k], flavor, freethreaded);
        reveal(picked_within);
        assert(asset_views(all)[m] == all[m]@);
        assert(all[m] == r[k]);
    }
    assert forall|k: int, i: int|
        0 <= k < r.len() && 0 <= i < all.len() && kept(all[i]@, flavor, freethreaded)
            && #[trigger] all[i].python_version == #[trigger] r[k].python_version implies !lex_lt(
        r[k].release_date@,
        all[i].release_date@,
    ) by {
        assert(chosen(all, r[k], flavor, freethreaded));
        let m = choose|m: int| #[trigger] is_pick(all, m, r[k], flavor, freethreaded);
        lemma_pick_latest(all, m, i, flavor, freethreaded);
    }
}

/// Keeps the assets of one flavor and threading, one per release (the one
/// with the latest date, the first listed among equal dates), newest release
/// first.
pub fn filter_assets(all: Vec<PbsAsset>, flavor: PbsFlavor, freethreaded: bool) -> (r: Vec<
    PbsAsset,
>)
    ensures
        listing_spec(all@, r@, flavor, freethreaded),
{
    let ghost orig = all@;
    let ghost views = asset_views(orig);
    let n = all.len();
    let mut src = all;
    let mut out: Vec<PbsAsset> = Vec::new();
    let ghost mut idx: Seq<int> = Seq::empty();
    let mut i: usize = 0;
    while i < n
        invariant
            n == orig.len(),
            views == asset_views(orig),
            i <= n,
            src@ == orig.subrange(i as int, n as int),
            idx.len() == out@.len(),
            forall|k: int|
                0 <= k < out@.len() ==> picked_within(views, #[trigger] idx[k], i as int, flavor, freethreaded)
                    && out@[k] == orig[idx[k]],
            forall|j: int|
                0 <= j < i && kept(#[trigger] views[j], flavor, freethreaded) ==> exists|k: int|
                    0 <= k < out@.len() && out@[k].python_version == views[j].python_version,
            forall|p: int, q: int|
                0 <= p < q < out@.len() ==> release_lt(
                    #[trigger] out@[q].python_version,
                    #[trigger] out@[p].python_version,
                ),
        decreases n - i,
    {
        let a = src.remove(0);
        proof {
            reveal(picked_within);
            assert(a == orig[i as int]);
            assert(views[i as int] == a@);
            assert(src@ =~= orig.subrange(i + 1, n as int));
        }
        if a.flavor == flavor && a.freethreaded == freethreaded {
            let mut k: usize = 0;
            while k < out.len() && release_precedes(&a.python_version, &out[k].python_version)
                invariant
                    k <= out@.len(),
                    forall|t: int| 0 <= t < k ==> release_lt(a.python_version, #[trigger] out@[t].python_version),
                decreases out@.len() - k,
            {
                k = k + 1;
            }
            if k < out.len() && out[k].python_version == a.python_version {
                if str_lt(out[k].release_date.as_str(), a.release_date.as_str()) {
                    let ghost before = out@;
                    let ghost old_i = idx[k as int];
                    let ghost av = a@;
                    out.remove(k);
                    out.insert(k, a);
                    proof {
                        reveal(picked_within);
                        idx = idx.update(k as int, i as int);
                        assert(out@ =~= before.update(k as int, orig[i as int]));
                        // every earlier asset of this release is dated no later than the old pick
                        assert forall|j: int|
                            0 <= j < i + 1 && kept(#[trigger] views[j], flavor, freethreaded)
                                && views[j].python_version == views[i as int].python_version
                                implies lex_lt(views[j].release_date, views[i as int].release_date)
                            || (views[j].release_date == views[i as int].release_date && i <= j) by {
                            if j < i {
                                assert(picked_within(views, old_i, i as int, flavor, freethreaded));
                                assert(views[old_i] == before[k as int]@);
                                if lex_lt(views[j].release_date, views[old_i].release_date) {
                                    lemma_lex_transitive(
                                        views[j].release_date,
                                        views[old_i].release_date,
                                        views[i as int].release_date,
                                    );
                                }
                            }
                        }
                        assert forall|kk: int| 0 <= kk < out@.len() implies picked_within(
                            views,
                            #[trigger] idx[kk],
                            i + 1,
                            flavor,
                            freethreaded,
                        ) && out@[kk] == orig[idx[kk]] by {
                            if kk != k {
                                assert(picked_within(views, idx[kk], i as int, flavor, freethreaded));
                                assert(out@[kk] == before[kk]);
                                assert(views[idx[kk]] == before[kk]@);
                                if kk < k {
                                    assert(release_lt(before[k as int].python_version, before[kk].python_version));
                                } else {
                                    assert(release_lt(before[kk].python_version, before[k as int].python_version));
                                }
                            }
                        }
                        assert forall|j: int|
                            0 <= j < i + 1 && kept(#[trigger] views[j], flavor, freethreaded)
                                implies exists|t: int|
                            0 <= t < out@.len() && out@[t].python_version == views[j].python_version by {
                            if j < i {
                                let t0 = choose|t: int|
                                    0 <= t < before.len() && before[t].python_version
                                        == views[j].python_version;
                                assert(out@[t0].python_version == before[t0].python_version);
                            } else {
                                assert(out@[k as int].python_version == views[j].python_version);
                            }
                        }
                    }
                } else {
                    proof {
                        reveal(picked_within);
                        let old_i = idx[k as int];
                        assert(picked_within(views, old_i, i as int, flavor, freethreaded));
                        assert(views[old_i] == out@[k as int]@);
                        lemma_lex_total(out@[k as int].release_date@, a.release_date@);
                        assert forall|kk: int| 0 <= kk < out@.len() implies picked_within(
                            views,
                            #[trigger] idx[kk],
                            i + 1,
                            flavor,
                            freethreaded,
                        ) && out@[kk] == orig[idx[kk]] by {
                            assert(picked_within(views, idx[kk], i as int, flavor, freethreaded));
                            assert(views[idx[kk]] == out@[kk]@);
                            if kk < k {
                                assert(release_lt(out@[k as int].python_version, out@[kk].python_version));
                            } else if kk > k {
                                assert(release_lt(out@[kk].python_version, out@[k as int].python_version));
                            }
                        }
                        assert forall|j: int|
                            0 <= j < i + 1 && kept(#[trigger] views[j], flavor, freethreaded)
                                implies exists|t: int|
                            0 <= t < out@.len() && out@[t].python_version == views[j].python_version by {
                            if j == i {
                                assert(out@[k as int].python_version == views[j].python_version);
                            }
                        }
                    }
                }
            } else {
                let ghost before = out@;
                let ghost av = a@;
                let ghost old_idx = idx;
                out.insert(k, a);
                proof {
                    reveal(picked_within);
                    idx = idx.insert(k as int, i as int);
                    // no kept asset seen so far belongs to this release
                    assert forall|j: int|
                        0 <= j < i && kept(#[trigger] views[j], flavor, freethreaded) implies views[j].python_version
                        != av.python_version by {
                        let t0 = choose|t: int|
                            0 <= t < before.len() && before[t].python_version == views[j].python_version;
                        if t0 < k {
                            assert(release_lt(av.python_version, before[t0].python_version));
                        } else if t0 == k {
                        } else {
                            assert(release_lt(before[t0].python_version, before[k as int].python_version));
                            assert(!release_lt(av.python_version, before[k as int].python_version));
                        }
                    }
                    assert forall|kk: int| 0 <= kk < out@.len() implies picked_within(
                        views,
                        #[trigger] idx[kk],
                        i + 1,
                        flavor,
                        freethreaded,
                    ) && out@[kk] == orig[idx[kk]] by {
                        if kk < k {
                            assert(out@[kk] == before[kk] && idx[kk] == old_idx[kk]);
                            assert(picked_within(views, old_idx[kk], i as int, flavor, freethreaded));
                            assert(views[old_idx[kk]] == before[kk]@);
                            assert(release_lt(av.python_version, before[kk].python_version));
                        } else if kk > k {
                            assert(out@[kk] == before[kk - 1] && idx[kk] == old_idx[kk - 1]);
                            assert(picked_within(views, old_idx[kk - 1], i as int, flavor, freethreaded));
                            assert(views[old_idx[kk - 1]] == before[kk - 1]@);
                            assert(release_lt(before[kk - 1].python_version, before[k as int].python_version) || kk - 1 == k);
                        } else {
                            assert(idx[kk] == i);
                        }
                    }
                    assert forall|j: int|
                        0 <= j < i + 1 && kept(#[trigger] views[j], flavor, freethreaded)
                            implies exists|t: int|
                        0 <= t < out@.len() && out@[t].python_version == views[j].python_version by {
                        if j < i {
                            let t0 = choose|t: int|
                                0 <= t < before.len() && before[t].python_version
                                    == views[j].python_version;
                            if t0 < k {
                                assert(out@[t0] == before[t0]);
                            } else {
                                assert(out@[t0 + 1] == before[t0]);
                            }
                        } else {
                            assert(out@[k as int].python_version == views[j].python_version);
                        }
                    }
                }
            }
        } else {
            proof {
                reveal(picked_within);
                assert forall|kk: int| 0 <= kk < out@.len() implies picked_within(
                    views,
                    #[trigger] idx[kk],
                    i + 1,
                    flavor,
                    freethreaded,
                ) && out@[kk] == orig[idx[kk]] by {
                    assert(picked_within(views, idx[kk], i as int, flavor, freethreaded));
                }
            }
        }
        i = i + 1;
    }
    proof {
        assert(views.len() == n);
        assert forall|k: int| #![trigger out@[k]] 0 <= k < out@.len() implies is_pick(
            orig,
            idx[k],
            out@[k],
            flavor,
            freethreaded,
        ) by {
            assert(picked_within(views, idx[k], n as int, flavor, freethreaded));
        }
        assert forall|ii: int|
            #![trigger orig[ii]]
            0 <= ii < orig.len() && kept(orig[ii]@, flavor, freethreaded) implies exists|k: int|
            0 <= k < out@.len() && out@[k].python_version == orig[ii].python_version by {
            assert(views[ii] == orig[ii]@);
        }
    }
    out
}


/// One asset entry of a release listing: file name, download URL, size and
/// digest.
pub type AssetEntry = (String, Option<String>, Option<u64>, Option<String>);

pub open spec fn entry_asset(e: AssetEntry) -> Option<AssetView> {
    parse_asset_of(e.0@, opt_view(e.1), e.2, opt_view(e.3))
}

/// The assets read from a listing, in order, skipping entries that are not
/// assets of a known kind.
pub open spec fn parsed_assets(es: Seq<AssetEntry>) -> Seq<AssetView>
    decreases es.len(),
{
    if es.len() == 0 {
        Seq::empty()
    } else {
        let rest = parsed_assets(es.drop_last());
        match entry_asset(es.last()) {
            Some(a) => rest.push(a),
            None => rest,
        }
    }
}

/// Reads the assets of one release, in the order listed.
pub fn assets_of_release(entries: &Vec<AssetEntry>) -> (r: Vec<PbsAsset>)
    ensures
        asset_views(r@) == parsed_assets(entries@),
{
    let mut out: Vec<PbsAsset> = Vec::new();
    let mut i: usize = 0;
    while i < entries.len()
        invariant
            i <= entries@.len(),
            asset_views(out@) == parsed_assets(entries@.take(i as int)),
        decreases entries@.len() - i,
    {
        let e = &entries[i];
        let url = match &e.1 {
            Some(u) => Some(u.as_str()),
            None => None,
        };
        let digest = match &e.3 {
            Some(d) => Some(d.as_str()),
            None => None,
        };
        let ghost before = out@;
        proof {
            assert(entries@.take(i + 1).drop_last() =~= entries@.take(i as int));
            assert(entries@.take(i + 1).last() == entries@[i as int]);
        }
        match parse_asset(e.0.as_str(), url, e.2, digest) {
            Some(a) => {
                out.push(a);
                assert(asset_views(out@) =~= asset_views(before).push(a@));
            },
            None => {},
        }
        i = i + 1;
    }
    assert(entries@.take(entries@.len() as int) =~= entries@);
    out
}

/// The release listing refuses for now: HTTP 403 or 429, or a message about
/// the rate limit.
pub open spec fn rate_limited_of(msg: Seq<char>) -> bool {
    has_sub(msg, "403"@) || has_sub(msg, "429"@) || has_sub(crate::text::lowercase_of(msg), "rate"@)
}

/// What to do after attempt `attempt` (from 0) to read a listing page
/// failed with `msg`: report a rate limit; retry a gateway error or a
/// timeout up to three times, waiting 500 ms more each time; else stop.
pub fn page_fetch_step(msg: &str, attempt: u32) -> (r: crate::net::FetchStep)
    ensures
        r == (if rate_limited_of(msg@) {
            crate::net::FetchStep::RateLimited
        } else if crate::net::retriable_of(msg@) && attempt < 3 {
            crate::net::FetchStep::Retry((500 * (attempt + 1)) as u64)
        } else {
            crate::net::FetchStep::GiveUp
        }),
{
    let lower = crate::text::to_lower(msg);
    if contains_str(msg, "403") || contains_str(msg, "429") || contains_str(lower.as_str(), "rate") {
        crate::net::FetchStep::RateLimited
    } else if crate::net::retriable(msg) && attempt < 3 {
        crate::net::FetchStep::Retry(500 * (attempt as u64 + 1))
    } else {
        crate::net::FetchStep::GiveUp
    }
}

/// The error for a listing refused for now.
pub fn rate_limited_error() -> (r: PvmError)
    ensures
        r@ == ErrView::RateLimited("稍后重试，或设置 GITHUB_TOKEN 提升限额"@),
{
    PvmError::RateLimited { reset: String::from_str("稍后重试，或设置 GITHUB_TOKEN 提升限额") }
}

/// The error once the listing could not be read, with the last failure.
pub fn listing_failed(last: &str) -> (r: PvmError)
    ensures
        r@ == ErrView::Http(
            "GitHub API 请求失败（已重试；常见于代理对 api.github.com 的节点超时，可改用 --source cpython 或设 GITHUB_TOKEN）: "@
                + last@,
        ),
{
    PvmError::Http(
        cat(
            "GitHub API 请求失败（已重试；常见于代理对 api.github.com 的节点超时，可改用 --source cpython 或设 GITHUB_TOKEN）: ",
            last,
        ),
    )
}

/// Index of releases on a listing page.
pub fn releases_page_url(page: u32) -> (r: String)
    ensures
        r@ == "https://api.github.com/repos/astral-sh/python-build-standalone/releases?per_page=100&page="@
            + crate::text::dec(page as nat),
{
    let mut s = String::from_str(
        "https://api.github.com/repos/astral-sh/python-build-standalone/releases?per_page=100&page=",
    );
    s.append(crate::text::dec_string(page as u64).as_str());
    s
}

/// Where the full listing is cached.
pub fn index_cache_file(paths: &Paths) -> (r: String)
    ensures
        r@ == join_of(join_of(paths.root@, "cache"@), "pbs-index.json"@),
{
    let c = paths.cache();
    join(c.as_str(), "pbs-index.json")
}

/// The directories an unpacked build passes through:
/// `versions\.tmp-<id>`, and `versions\.tmp2-<id>` where the full build is
/// regrouped.
pub fn staging_dirs(paths: &Paths, v: &PythonVersion) -> (r: (String, String))
    ensures
        r.0@ == join_of(versions_of(paths.root@), ".tmp-"@ + canonical_of(*v)),
        r.1@ == join_of(versions_of(paths.root@), ".tmp2-"@ + canonical_of(*v)),
{
    let vs = paths.versions();
    let id = v.canonical();
    let a = cat(".tmp-", id.as_str());
    let b = cat(".tmp2-", id.as_str());
    (join(vs.as_str(), a.as_str()), join(vs.as_str(), b.as_str()))
}

/// Where the interpreter lies in an unpacked build: `python\install\python.exe`
/// in the full build, `python\python.exe` otherwise.
pub open spec fn unpacked_interpreter_of(tmp: Seq<char>, flavor: PbsFlavor) -> Seq<char> {
    match flavor {
        PbsFlavor::PgoFull => join_of(join_of(join_of(tmp, "python"@), "install"@), "python.exe"@),
        _ => join_of(join_of(tmp, "python"@), "python.exe"@),
    }
}

pub fn unpacked_interpreter(tmp: &str, flavor: PbsFlavor) -> (r: String)
    ensures
        r@ == unpacked_interpreter_of(tmp@, flavor),
{
    let py = join(tmp, "python");
    match flavor {
        PbsFlavor::PgoFull => {
            let inst = join(py.as_str(), "install");
            join(inst.as_str(), "python.exe")
        },
        _ => join(py.as_str(), "python.exe"),
    }
}

/// The archive format of a flavor.
pub fn archive_kind(flavor: PbsFlavor) -> (r: crate::archive::ArchiveKind)
    ensures
        r == (if flavor == PbsFlavor::PgoFull {
            crate::archive::ArchiveKind::TarZst
        } else {
            crate::archive::ArchiveKind::TarGz
        }),
{
    if flavor.is_zstd() {
        crate::archive::ArchiveKind::TarZst
    } else {
        crate::archive::ArchiveKind::TarGz
    }
}

/// The error for an unpacked build without its interpreter.
pub fn missing_interpreter(interp: &str) -> (r: PvmError)
    ensures
        r@ == ErrView::Archive("解压后未找到解释器: "@ + interp@),
{
    PvmError::Archive(cat("解压后未找到解释器: ", interp))
}

} // verus!
