//! Known vulnerabilities of installed packages (OSV): which advisories to
//! fetch, what is shown of each, and the hits reported per package. The
//! queries themselves are the caller's.
use crate::text::{lemma_lex_total, lemma_lex_transitive, lex_lt, str_eq, str_lt};
use vstd::prelude::*;

verus! {

/// One advisory that concerns one installed package.
pub struct VulnHit {
    pub package: String,
    pub version: String,
    pub vuln_id: String,
    pub summary: String,
    pub severity: String,
    pub fixed: String,
}

/// What is shown of one advisory: summary, severity, fixed versions.
pub struct VulnDetail {
    pub summary: String,
    pub severity: String,
    pub fixed: String,
}

pub open spec fn string_views(v: Seq<String>) -> Seq<Seq<char>> {
    v.map_values(|s: String| s@)
}

/// The advisory ids of the answers, in order: answer `i` belongs to package
/// `i`, answers past the last package are ignored, empty ids are skipped.
pub open spec fn ids_in_order(results: Seq<Seq<Seq<char>>>, npkg: nat) -> Seq<Seq<char>>
    decreases results.len(),
{
    if results.len() == 0 {
        Seq::empty()
    } else {
        let rest = ids_in_order(results.drop_last(), npkg);
        if results.len() - 1 < npkg {
            rest + results.last().filter(|id: Seq<char>| id.len() > 0)
        } else {
            rest
        }
    }
}

/// The advisories to fetch: each id of [`ids_in_order`] once, at its first
/// occurrence.
pub open spec fn first_occurrences(ids: Seq<Seq<char>>) -> Seq<Seq<char>>
    decreases ids.len(),
{
    if ids.len() == 0 {
        Seq::empty()
    } else {
        let rest = first_occurrences(ids.drop_last());
        if rest.contains(ids.last()) {
            rest
        } else {
            rest.push(ids.last())
        }
    }
}

pub open spec fn results_views(r: Seq<Vec<String>>) -> Seq<Seq<Seq<char>>> {
    r.map_values(|v: Vec<String>| string_views(v@))
}

fn contains_str_in(v: &Vec<String>, s: &str) -> (r: bool)
    ensures
        r == string_views(v@).contains(s@),
{
    let mut i: usize = 0;
    while i < v.len()
        invariant
            i <= v@.len(),
            forall|k: int| 0 <= k < i ==> v@[k]@ != s@,
        decreases v@.len() - i,
    {
        if str_eq(v[i].as_str(), s) {
            assert(string_views(v@)[i as int] == s@);
            return true;
        }
        i = i + 1;
    }
    assert forall|k: int| 0 <= k < string_views(v@).len() implies string_views(v@)[k] != s@ by {
        assert(string_views(v@)[k] == v@[k]@);
    }
    false
}

/// The advisory ids to fetch for the answers to a batch query of
/// `npkg` packages (answer `i` listing the ids that concern package `i`).
pub fn ids_to_fetch(results: &Vec<Vec<String>>, npkg: usize) -> (r: Vec<String>)
    ensures
        string_views(r@) == first_occurrences(ids_in_order(results_views(results@), npkg as nat)),
{
    let ghost rv = results_views(results@);
    let mut out: Vec<String> = Vec::new();
    let ghost mut seen: Seq<Seq<char>> = Seq::empty();
    let mut i: usize = 0;
    while i < results.len()
        invariant
            rv == results_views(results@),
            i <= results@.len(),
            seen == ids_in_order(rv.take(i as int), npkg as nat),
            string_views(out@) == first_occurrences(seen),
        decreases results@.len() - i,
    {
        proof {
            assert(rv.take(i + 1).drop_last() =~= rv.take(i as int));
            assert(rv.take(i + 1).last() == rv[i as int]);
        }
        if i < npkg {
            let ids = &results[i];
            let ghost f = rv[i as int].filter(|id: Seq<char>| id.len() > 0);
            let mut j: usize = 0;
            let ghost start = seen;
            while j < ids.len()
                invariant
                    rv == results_views(results@),
                    i < results@.len(),
                    ids == results@[i as int],
                    j <= ids@.len(),
                    seen == start + rv[i as int].take(j as int).filter(|id: Seq<char>| id.len() > 0),
                    string_views(out@) == first_occurrences(seen),
                decreases ids@.len() - j,
            {
                let id = ids[j].as_str();
                let ghost before = seen;
                proof {
                    assert(rv[i as int][j as int] == id@);
                    assert(rv[i as int].take(j + 1) =~= rv[i as int].take(j as int).push(id@));
                    rv[i as int].take(j as int).lemma_filter_push(id@, |id: Seq<char>| id.len() > 0);
                }
                if id.unicode_len() > 0 {
                    proof {
                        seen = seen.push(id@);
                        assert(seen.drop_last() =~= before);
                    }
                    if !contains_str_in(&out, id) {
                        let ghost o = out@;
                        out.push(String::from_str(id));
                        assert(string_views(out@) =~= string_views(o).push(id@));
                    }
                } else {
                    proof {
                        assert(seen =~= start + rv[i as int].take(j + 1).filter(
                            |id: Seq<char>| id.len() > 0,
                        ));
                    }
                }
                j = j + 1;
            }
            proof {
                assert(rv[i as int].take(ids@.len() as int) =~= rv[i as int]);
            }
        }
        i = i + 1;
    }
    assert(rv.take(results@.len() as int) =~= rv);
    out
}

/// The detail of advisory `id` among the fetched ones (the first with that
/// id), or nothing shown where it was not fetched.
pub open spec fn detail_for(details: Seq<(Seq<char>, (Seq<char>, Seq<char>, Seq<char>))>, id: Seq<char>) -> (
    Seq<char>,
    Seq<char>,
    Seq<char>,
)
    decreases details.len(),
{
    if details.len() == 0 {
        (Seq::empty(), Seq::empty(), Seq::empty())
    } else if details[0].0 == id {
        details[0].1
    } else {
        detail_for(details.drop_first(), id)
    }
}

pub open spec fn detail_views(d: Seq<(String, VulnDetail)>) -> Seq<(Seq<char>, (Seq<char>, Seq<char>, Seq<char>))> {
    d.map_values(|p: (String, VulnDetail)| (p.0@, (p.1.summary@, p.1.severity@, p.1.fixed@)))
}

fn lookup_detail(details: &Vec<(String, VulnDetail)>, id: &str) -> (r: (String, String, String))
    ensures
        (r.0@, r.1@, r.2@) == detail_for(detail_views(details@), id@),
{
    let ghost dv = detail_views(details@);
    let mut i: usize = 0;
    assert(dv.skip(0) =~= dv);
    while i < details.len()
        invariant
            dv == detail_views(details@),
            i <= details@.len(),
            detail_for(dv.skip(i as int), id@) == detail_for(dv, id@),
        decreases details@.len() - i,
    {
        proof {
            assert(dv.skip(i as int)[0] == dv[i as int]);
            assert(dv.skip(i as int).drop_first() =~= dv.skip(i + 1));
        }
        if str_eq(details[i].0.as_str(), id) {
            let d = &details[i].1;
            return (d.summary.clone(), d.severity.clone(), d.fixed.clone());
        }
        i = i + 1;
    }
    assert(dv.skip(details@.len() as int) =~= Seq::<(Seq<char>, (Seq<char>, Seq<char>, Seq<char>))>::empty());
    (String::new(), String::new(), String::new())
}

pub struct HitView {
    pub package: Seq<char>,
    pub version: Seq<char>,
    pub vuln_id: Seq<char>,
    pub summary: Seq<char>,
    pub severity: Seq<char>,
    pub fixed: Seq<char>,
}

pub open spec fn hit_view(h: VulnHit) -> HitView {
    HitView {
        package: h.package@,
        version: h.version@,
        vuln_id: h.vuln_id@,
        summary: h.summary@,
        severity: h.severity@,
        fixed: h.fixed@,
    }
}

pub open spec fn hit_views(v: Seq<VulnHit>) -> Seq<HitView> {
    v.map_values(|h: VulnHit| hit_view(h))
}

pub open spec fn hits_for(
    pkg: (Seq<char>, Seq<char>),
    ids: Seq<Seq<char>>,
    details: Seq<(Seq<char>, (Seq<char>, Seq<char>, Seq<char>))>,
) -> Seq<HitView> {
    ids.filter(|id: Seq<char>| id.len() > 0).map_values(
        |id: Seq<char>|
            HitView {
                package: pkg.0,
                version: pkg.1,
                vuln_id: id,
                summary: detail_for(details, id).0,
                severity: detail_for(details, id).1,
                fixed: detail_for(details, id).2,
            },
    )
}

/// The hits: for each answer that has a package, one hit per nonempty id,
/// in order, with the advisory's detail.
pub open spec fn hits_of(
    pkgs: Seq<(Seq<char>, Seq<char>)>,
    results: Seq<Seq<Seq<char>>>,
    details: Seq<(Seq<char>, (Seq<char>, Seq<char>, Seq<char>))>,
) -> Seq<HitView>
    decreases results.len(),
{
    if results.len() == 0 {
        Seq::empty()
    } else {
        let rest = hits_of(pkgs, results.drop_last(), details);
        let i = results.len() - 1;
        if i < pkgs.len() {
            rest + hits_for(pkgs[i], results.last(), details)
        } else {
            rest
        }
    }
}

pub open spec fn pkg_views(p: Seq<(String, String)>) -> Seq<(Seq<char>, Seq<char>)> {
    p.map_values(|x: (String, String)| (x.0@, x.1@))
}

/// The hits of a scan of `packages` (name, version).
pub fn assemble_hits(
    packages: &Vec<(String, String)>,
    results: &Vec<Vec<String>>,
    details: &Vec<(String, VulnDetail)>,
) -> (r: Vec<VulnHit>)
    ensures
        hit_views(r@) == hits_of(pkg_views(packages@), results_views(results@), detail_views(details@)),
{
    let ghost pv = pkg_views(packages@);
    let ghost rv = results_views(results@);
    let ghost dv = detail_views(details@);
    let mut out: Vec<VulnHit> = Vec::new();
    let mut i: usize = 0;
    while i < results.len()
        invariant
            pv == pkg_views(packages@),
            rv == results_views(results@),
            dv == detail_views(details@),
            i <= results@.len(),
            hit_views(out@) == hits_of(pv, rv.take(i as int), dv),
        decreases results@.len() - i,
    {
        proof {
            assert(rv.take(i + 1).drop_last() =~= rv.take(i as int));
            assert(rv.take(i + 1).last() == rv[i as int]);
        }
        if i < packages.len() {
            let (name, version) = (&packages[i].0, &packages[i].1);
            let ids = &results[i];
            let ghost start = hit_views(out@);
            let mut j: usize = 0;
            while j < ids.len()
                invariant
                    pv == pkg_views(packages@),
                    rv == results_views(results@),
                    dv == detail_views(details@),
                    i < results@.len(),
                    i < packages@.len(),
                    ids == results@[i as int],
                    name@ == pv[i as int].0,
                    version@ == pv[i as int].1,
                    j <= ids@.len(),
                    hit_views(out@) == start + hits_for(pv[i as int], rv[i as int].take(j as int), dv),
                decreases ids@.len() - j,
            {
                let id = ids[j].as_str();
                let ghost before = hit_views(out@);
                proof {
                    assert(rv[i as int][j as int] == id@);
                    assert(rv[i as int].take(j + 1) =~= rv[i as int].take(j as int).push(id@));
                    rv[i as int].take(j as int).lemma_filter_push(id@, |id: Seq<char>| id.len() > 0);
                }
                if id.unicode_len() > 0 {
                    let d = lookup_detail(details, id);
                    let h = VulnHit {
                        package: name.clone(),
                        version: version.clone(),
                        vuln_id: String::from_str(id),
                        summary: d.0,
                        severity: d.1,
                        fixed: d.2,
                    };
                    let ghost hv = hit_view(h);
                    out.push(h);
                    assert(hit_views(out@) =~= before.push(hv));
                    assert(hits_for(pv[i as int], rv[i as int].take(j + 1), dv) =~= hits_for(
                        pv[i as int],
                        rv[i as int].take(j as int),
                        dv,
                    ).push(hv));
                } else {
                    assert(hits_for(pv[i as int], rv[i as int].take(j + 1), dv) =~= hits_for(
                        pv[i as int],
                        rv[i as int].take(j as int),
                        dv,
                    ));
                }
                j = j + 1;
            }
            proof {
                assert(rv[i as int].take(ids@.len() as int) =~= rv[i as int]);
            }
        }
        i = i + 1;
    }
    assert(rv.take(results@.len() as int) =~= rv);
    out
}

/// The first `n` characters of a text.
pub fn clip_chars(s: &str, n: usize) -> (r: String)
    ensures
        r@ == (if s@.len() <= n {
            s@
        } else {
            s@.take(n as int)
        }),
{
    let len = s.unicode_len();
    if len <= n {
        String::from_str(s)
    } else {
        String::from_str(s.substring_char(0, n))
    }
}

/// The summary of an advisory: its `summary`, where the advisory has that
/// field, else its `details`; text only (nothing where the field is not
/// text); at most 240 characters.
pub open spec fn summary_of(summary: Option<Option<Seq<char>>>, details: Option<Option<Seq<char>>>) -> Seq<char> {
    let field = match summary {
        Some(s) => s,
        None => match details {
            Some(d) => d,
            None => None,
        },
    };
    match field {
        Some(t) => if t.len() <= 240 {
            t
        } else {
            t.take(240)
        },
        None => Seq::empty(),
    }
}

pub open spec fn opt_opt(o: Option<Option<String>>) -> Option<Option<Seq<char>>> {
    match o {
        Some(Some(s)) => Some(Some(s@)),
        Some(None) => Some(None),
        None => None,
    }
}

pub fn advisory_summary(summary: Option<Option<String>>, details: Option<Option<String>>) -> (r:
    String)
    ensures
        r@ == summary_of(opt_opt(summary), opt_opt(details)),
{
    let field = match summary {
        Some(s) => s,
        None => match details {
            Some(d) => d,
            None => None,
        },
    };
    match field {
        Some(t) => clip_chars(t.as_str(), 240),
        None => String::new(),
    }
}

/// Strictly ascending, hence each once.
pub open spec fn strictly_sorted(s: Seq<Seq<char>>) -> bool {
    forall|i: int, j: int| 0 <= i < j < s.len() ==> lex_lt(#[trigger] s[i], #[trigger] s[j])
}

/// Texts joined with `, `.
pub open spec fn joined_comma(ps: Seq<Seq<char>>) -> Seq<char>
    decreases ps.len(),
{
    if ps.len() == 0 {
        Seq::empty()
    } else if ps.len() == 1 {
        ps[0]
    } else {
        joined_comma(ps.drop_last()) + ", "@ + ps.last()
    }
}

/// The fixed versions of an advisory: each one once, in ascending order,
/// joined with `, `.
pub fn fixed_versions(fixes: &Vec<String>) -> (r: String)
    ensures
        exists|list: Seq<Seq<char>>|
            strictly_sorted(list) && list.to_set() == string_views(fixes@).to_set() && r@
                == joined_comma(list),
{
    let ghost fv = string_views(fixes@);
    let mut sorted: Vec<String> = Vec::new();
    let mut i: usize = 0;
    while i < fixes.len()
        invariant
            fv == string_views(fixes@),
            i <= fixes@.len(),
            strictly_sorted(string_views(sorted@)),
            string_views(sorted@).to_set() == fv.take(i as int).to_set(),
        decreases fixes@.len() - i,
    {
        let x = fixes[i].as_str();
        let ghost sv = string_views(sorted@);
        let mut j: usize = 0;
        while j < sorted.len() && str_lt(sorted[j].as_str(), x)
            invariant
                j <= sorted@.len(),
                sv == string_views(sorted@),
                forall|k: int| 0 <= k < j ==> lex_lt(#[trigger] sv[k], x@),
            decreases sorted@.len() - j,
        {
            j = j + 1;
        }
        proof {
            assert(fv.take(i + 1) =~= fv.take(i as int).push(x@));
        }
        if j < sorted.len() && str_eq(sorted[j].as_str(), x) {
            proof {
                assert(sv[j as int] == x@);
                assert(string_views(sorted@).to_set() =~= fv.take(i + 1).to_set());
            }
        } else {
            sorted.insert(j, String::from_str(x));
            proof {
                let nv = string_views(sorted@);
                assert(nv =~= sv.insert(j as int, x@));
                let jj = j as int;
                if jj < sv.len() {
                    lemma_lex_total(sv[jj], x@);
                }
                assert forall|p: int, q: int| 0 <= p < q < nv.len() implies lex_lt(
                    #[trigger] nv[p],
                    #[trigger] nv[q],
                ) by {
                    if q < jj {
                    } else if q == jj {
                    } else if p == jj {
                        if q - 1 > jj {
                            lemma_lex_transitive(x@, sv[jj], sv[q - 1]);
                        }
                    } else {
                    }
                }
                assert(nv.to_set() =~= fv.take(i + 1).to_set()) by {
                    assert forall|e: Seq<char>| nv.to_set().contains(e) <==> fv.take(i + 1).to_set().contains(e) by {
                        if nv.to_set().contains(e) {
                            let k = choose|k: int| 0 <= k < nv.len() && nv[k] == e;
                            if k < jj {
                                assert(sv[k] == e);
                            } else if k > jj {
                                assert(sv[k - 1] == e);
                            }
                        }
                        if sv.to_set().contains(e) {
                            let k = choose|k: int| 0 <= k < sv.len() && sv[k] == e;
                            if k < jj {
                                assert(nv[k] == e);
                            } else {
                                assert(nv[k + 1] == e);
                            }
                        }
                        if e == x@ {
                            assert(nv[jj] == e);
                        }
                        let t1 = fv.take(i + 1);
                        let t0 = fv.take(i as int);
                        if t1.contains(e) {
                            let k = choose|k: int| 0 <= k < t1.len() && t1[k] == e;
                            if k < i {
                                assert(t0[k] == e);
                            }
                        }
                        if t0.contains(e) {
                            let k = choose|k: int| 0 <= k < t0.len() && t0[k] == e;
                            assert(t1[k] == e);
                        }
                        if e == x@ {
                            assert(t1[i as int] == e);
                        }
                    }
                }
            }
        }
        i = i + 1;
    }
    assert(fv.take(fixes@.len() as int) =~= fv);
    let ghost sv = string_views(sorted@);
    let mut out = String::new();
    let mut k: usize = 0;
    while k < sorted.len()
        invariant
            sv == string_views(sorted@),
            k <= sorted@.len(),
            out@ == joined_comma(sv.take(k as int)),
        decreases sorted@.len() - k,
    {
        proof {
            assert(sv.take(k + 1).drop_last() =~= sv.take(k as int));
            assert(sv.take(k + 1).last() == sv[k as int]);
        }
        if k > 0 {
            out.append(", ");
        }
        out.append(sorted[k].as_str());
        proof {
            reveal_strlit(", ");
            if k == 0 {
                assert(out@ =~= sv.take(1)[0]);
            }
        }
        k = k + 1;
    }
    assert(sv.take(sorted@.len() as int) =~= sv);
    out
}


/// What is shown of an advisory: its summary, the score of its first
/// severity entry (nothing where it has none), and its fixed versions.
pub fn vuln_detail(
    summary: Option<Option<String>>,
    details: Option<Option<String>>,
    severity_score: Option<String>,
    fixes: &Vec<String>,
) -> (r: VulnDetail)
    ensures
        r.summary@ == summary_of(opt_opt(summary), opt_opt(details)),
        r.severity@ == (match severity_score {
            Some(s) => s@,
            None => Seq::empty(),
        }),
        exists|list: Seq<Seq<char>>|
            strictly_sorted(list) && list.to_set() == string_views(fixes@).to_set() && r.fixed@
                == joined_comma(list),
{
    let severity = match severity_score {
        Some(s) => s,
        None => String::new(),
    };
    VulnDetail {
        summary: advisory_summary(summary, details),
        severity,
        fixed: fixed_versions(fixes),
    }
}

} // verus!
