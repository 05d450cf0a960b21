//! Environment snapshots: the package set of an interpreter (from
//! `pip freeze`) saved under a name, to rebuild elsewhere. The files are
//! read and written by the caller.
use crate::error::{ErrView, PvmError};
use crate::paths::{join, join_of};
use crate::text::{
    cat, lemma_lex_total, lemma_lex_transitive, lex_lt, lines, lines_of, starts_with,
    starts_with_str, str_lt, trim, trim_str, views,
};
use vstd::prelude::*;

verus! {

/// A saved package set.
pub struct Snapshot {
    pub name: String,
    pub py_label: String,
    pub created_at: String,
    pub packages: Vec<String>,
}

/// `char::is_alphanumeric`: alphabetic or numeric in Unicode.
pub uninterp spec fn alphanumeric_of(c: char) -> bool;

pub open spec fn ascii_alnum(c: char) -> bool {
    ('0' <= c && c <= '9') || ('a' <= c && c <= 'z') || ('A' <= c && c <= 'Z')
}

/// Calls `char::is_alphanumeric`. Its result is named; for ASCII the
/// documentation gives it: digits and letters only.
#[verifier::external_body]
fn is_alphanumeric(c: char) -> (r: bool)
    ensures
        r == alphanumeric_of(c),
        (c as u32) < 128 ==> (r == ascii_alnum(c)),
{
    c.is_alphanumeric()
}

/// A name made safe for a file name: every character that is not
/// alphanumeric, `-` or `_` becomes `_`.
pub open spec fn sanitize_of(name: Seq<char>) -> Seq<char> {
    Seq::new(
        name.len(),
        |i: int|
            if alphanumeric_of(name[i]) || name[i] == '-' || name[i] == '_' {
                name[i]
            } else {
                '_'
            },
    )
}

pub fn sanitize(name: &str) -> (r: String)
    ensures
        r@ == sanitize_of(name@),
{
    let n = name.unicode_len();
    let mut out = String::new();
    let mut i: usize = 0;
    proof {
        reveal_strlit("_");
    }
    while i < n
        invariant
            n == name@.len(),
            i <= n,
            out@ == sanitize_of(name@).take(i as int),
        decreases n - i,
    {
        let c = name.get_char(i);
        let keep = is_alphanumeric(c) || c == '-' || c == '_';
        let ghost before = out@;
        if keep {
            let piece = name.substring_char(i, i + 1);
            out.append(piece);
            assert(piece@ =~= seq![c]);
        } else {
            proof {
                reveal_strlit("_");
            }
            out.append("_");
        }
        assert(out@ =~= sanitize_of(name@).take(i + 1)) by {
            assert(sanitize_of(name@).take(i + 1) =~= before.push(sanitize_of(name@)[i as int]));
        }
        i = i + 1;
    }
    assert(sanitize_of(name@).take(n as int) =~= sanitize_of(name@));
    out
}

/// A sanitized name is its own sanitized form: the file of a snapshot does
/// not change when it is saved again under its file name.
pub proof fn lemma_sanitize_idempotent(name: Seq<char>)
    ensures
        sanitize_of(sanitize_of(name)) == sanitize_of(name),
{
    let once = sanitize_of(name);
    assert(sanitize_of(once) =~= once);
}

/// A snapshot needs a name that is not blank.
pub fn check_name(name: &str) -> (r: Result<(), PvmError>)
    ensures
        r is Ok <==> trim(name@).len() > 0,
        match r {
            Err(e) => e@ == ErrView::Config("快照名不能为空"@),
            Ok(_) => true,
        },
{
    if trim_str(name).unicode_len() == 0 {
        Err(PvmError::Config(String::from_str("快照名不能为空")))
    } else {
        Ok(())
    }
}

/// A line of `pip freeze` that names a package: not blank, not a comment,
/// not an editable install.
pub open spec fn requirement_line(l: Seq<char>) -> bool {
    l.len() > 0 && !starts_with(l, "#"@) && !starts_with(l, "-e "@)
}

/// The requirements of `pip freeze` output: its lines, trimmed, that name
/// packages, in order.
pub open spec fn requirements_of(ls: Seq<Seq<char>>) -> Seq<Seq<char>>
    decreases ls.len(),
{
    if ls.len() == 0 {
        Seq::empty()
    } else {
        let rest = requirements_of(ls.drop_last());
        let l = trim(ls.last());
        if requirement_line(l) {
            rest.push(l)
        } else {
            rest
        }
    }
}

pub open spec fn string_views(v: Seq<String>) -> Seq<Seq<char>> {
    v.map_values(|s: String| s@)
}

pub fn freeze_packages(freeze: &str) -> (r: Vec<String>)
    ensures
        string_views(r@) == requirements_of(lines_of(freeze@)),
{
    let ls = lines(freeze);
    let ghost lv = lines_of(freeze@);
    let mut out: Vec<String> = Vec::new();
    let mut i: usize = 0;
    while i < ls.len()
        invariant
            views(ls@) == lv,
            i <= ls@.len(),
            string_views(out@) == requirements_of(lv.take(i as int)),
        decreases ls@.len() - i,
    {
        let l = trim_str(ls[i]);
        proof {
            reveal_strlit("#");
            reveal_strlit("-e ");
            assert(ls@[i as int]@ == lv[i as int]);
            assert(lv.take(i + 1).drop_last() =~= lv.take(i as int));
            assert(lv.take(i + 1).last() == lv[i as int]);
        }
        if l.unicode_len() > 0 && !starts_with_str(l, "#") && !starts_with_str(l, "-e ") {
            let ghost before = out@;
            out.push(String::from_str(l));
            assert(string_views(out@) =~= string_views(before).push(l@));
        }
        i = i + 1;
    }
    assert(lv.take(ls@.len() as int) =~= lv);
    out
}

/// A new snapshot of the packages that `pip freeze` printed.
pub fn new_snapshot(name: &str, py_label: &str, created_at: &str, freeze: &str) -> (r: Snapshot)
    ensures
        r.name@ == name@,
        r.py_label@ == py_label@,
        r.created_at@ == created_at@,
        string_views(r.packages@) == requirements_of(lines_of(freeze@)),
{
    Snapshot {
        name: String::from_str(name),
        py_label: String::from_str(py_label),
        created_at: String::from_str(created_at),
        packages: freeze_packages(freeze),
    }
}

/// The file of a snapshot: `<dir>\<sanitized name>.json`.
pub fn snapshot_file(dir: &str, name: &str) -> (r: String)
    ensures
        r@ == join_of(dir@, sanitize_of(name@) + ".json"@),
{
    let mut f = sanitize(name);
    f.append(".json");
    join(dir, f.as_str())
}

/// The temporary requirements file for applying a snapshot:
/// `<work>\.snap-<sanitized name>.txt`.
pub fn requirements_file(work_dir: &str, name: &str) -> (r: String)
    ensures
        r@ == join_of(work_dir@, ".snap-"@ + sanitize_of(name@) + ".txt"@),
{
    let s = sanitize(name);
    let mut f = cat(".snap-", s.as_str());
    f.append(".txt");
    join(work_dir, f.as_str())
}

/// Lines joined with `\n`.
pub open spec fn joined_lines(ps: Seq<Seq<char>>) -> Seq<char>
    decreases ps.len(),
{
    if ps.len() == 0 {
        Seq::empty()
    } else if ps.len() == 1 {
        ps[0]
    } else {
        joined_lines(ps.drop_last()) + "\n"@ + ps.last()
    }
}

/// The requirements file of a snapshot: its packages, one per line.
pub fn requirements_text(packages: &Vec<String>) -> (r: String)
    ensures
        r@ == joined_lines(string_views(packages@)),
{
    let ghost pv = string_views(packages@);
    let mut out = String::new();
    let mut i: usize = 0;
    while i < packages.len()
        invariant
            pv == string_views(packages@),
            i <= packages@.len(),
            out@ == joined_lines(pv.take(i as int)),
        decreases packages@.len() - i,
    {
        proof {
            assert(pv.take(i + 1).drop_last() =~= pv.take(i as int));
            assert(pv.take(i + 1).last() == packages@[i as int]@);
        }
        if i > 0 {
            out.append("\n");
        }
        out.append(packages[i].as_str());
        proof {
            reveal_strlit("\n");
            if i == 0 {
                assert(out@ =~= pv.take(1)[0]);
            }
        }
        i = i + 1;
    }
    assert(pv.take(packages@.len() as int) =~= pv);
    out
}

/// No snapshot of that name.
pub fn not_found(name: &str) -> (r: PvmError)
    ensures
        r@ == ErrView::Config("快照不存在: "@ + name@),
{
    PvmError::Config(cat("快照不存在: ", name))
}

/// Newest first by creation time (the order of the time stamps as text);
/// snapshots made at the same time keep their order.
pub open spec fn newest_first(s: Seq<Snapshot>) -> bool {
    forall|i: int, j: int|
        0 <= i < j < s.len() ==> !lex_lt(#[trigger] s[i].created_at@, #[trigger] s[j].created_at@)
}

/// Sorts snapshots newest first, keeping the order of equal time stamps.
pub fn sort_newest_first(v: Vec<Snapshot>) -> (r: Vec<Snapshot>)
    ensures
        r@.to_multiset() == v@.to_multiset(),
        newest_first(r@),
        forall|i: int, j: int|
            0 <= i < j < r@.len() && r@[i].created_at@ == r@[j].created_at@ ==> exists|a: int, b: int|
                0 <= a < b < v@.len() && #[trigger] v@[a] == r@[i] && #[trigger] v@[b] == r@[j],
{
    let ghost orig = v@;
    let n = v.len();
    let mut src = v;
    let mut out: Vec<Snapshot> = Vec::new();
    let ghost mut idx: Seq<int> = Seq::empty();
    let mut i: usize = 0;
    assert(out@ =~= orig.subrange(0, 0));
    while i < n
        invariant
            n == orig.len(),
            i <= n,
            src@ == orig.subrange(i as int, n as int),
            out@.to_multiset() == orig.subrange(0, i as int).to_multiset(),
            newest_first(out@),
            idx.len() == out@.len(),
            forall|k: int| 0 <= k < out@.len() ==> 0 <= #[trigger] idx[k] < i && out@[k] == orig[idx[k]],
            forall|p: int, q: int|
                0 <= p < q < out@.len() && out@[p].created_at@ == out@[q].created_at@ ==> #[trigger] idx[p]
                    < #[trigger] idx[q],
        decreases n - i,
    {
        let x = src.remove(0);
        proof {
            assert(x == orig[i as int]);
            assert(src@ =~= orig.subrange(i + 1, n as int));
        }
        // after every stamp not older than this one
        let mut j: usize = 0;
        while j < out.len() && !str_lt(out[j].created_at.as_str(), x.created_at.as_str())
            invariant
                j <= out@.len(),
                forall|k: int| 0 <= k < j ==> !lex_lt(#[trigger] out@[k].created_at@, x.created_at@),
            decreases out@.len() - j,
        {
            j = j + 1;
        }
        let ghost before = out@;
        let ghost old_idx = idx;
        out.insert(j, x);
        proof {
            idx = idx.insert(j as int, i as int);
            vstd::seq_lib::to_multiset_insert(before, j as int, x);
            vstd::seq_lib::to_multiset_build(orig.subrange(0, i as int), x);
            assert(orig.subrange(0, i + 1) =~= orig.subrange(0, i as int).push(x));
            assert forall|k: int| 0 <= k < out@.len() implies 0 <= #[trigger] idx[k] < i + 1
                && out@[k] == orig[idx[k]] by {
                if k < j {
                    assert(out@[k] == before[k] && idx[k] == old_idx[k]);
                } else if k > j {
                    assert(out@[k] == before[k - 1] && idx[k] == old_idx[k - 1]);
                }
            }
            let jj = j as int;
            if jj < before.len() {
                assert(lex_lt(before[jj].created_at@, x.created_at@));
            }
            assert forall|p: int, q: int| 0 <= p < q < out@.len() implies !lex_lt(
                #[trigger] out@[p].created_at@,
                #[trigger] out@[q].created_at@,
            ) by {
                if q < jj {
                    assert(out@[p] == before[p] && out@[q] == before[q]);
                } else if q == jj {
                    assert(out@[p] == before[p]);
                } else if p == jj {
                    assert(out@[q] == before[q - 1]);
                    if q - 1 > jj {
                        lemma_lex_total(before[q - 1].created_at@, before[jj].created_at@);
                        if lex_lt(x.created_at@, before[q - 1].created_at@) {
                            lemma_lex_transitive(
                                before[jj].created_at@,
                                x.created_at@,
                                before[q - 1].created_at@,
                            );
                            lemma_lex_total(before[jj].created_at@, before[q - 1].created_at@);
                        }
                    } else {
                        lemma_lex_total(x.created_at@, before[jj].created_at@);
                    }
                } else if p > jj {
                    assert(out@[p] == before[p - 1] && out@[q] == before[q - 1]);
                } else {
                    assert(out@[p] == before[p] && out@[q] == before[q - 1]);
                }
            }
            assert forall|p: int, q: int|
                0 <= p < q < out@.len() && out@[p].created_at@ == out@[q].created_at@ implies #[trigger] idx[p]
                < #[trigger] idx[q] by {
                if q < jj {
                    assert(out@[p] == before[p] && out@[q] == before[q]);
                    assert(idx[p] == old_idx[p] && idx[q] == old_idx[q]);
                } else if q == jj {
                    assert(idx[p] == old_idx[p] && idx[p] < i);
                } else if p == jj {
                    assert(out@[q] == before[q - 1]);
                    assert(lex_lt(before[jj].created_at@, x.created_at@));
                    if q - 1 > jj {
                        assert(!lex_lt(before[jj].created_at@, before[q - 1].created_at@));
                    }
                    lemma_lex_total(x.created_at@, x.created_at@);
                } else if p > jj {
                    assert(out@[p] == before[p - 1] && out@[q] == before[q - 1]);
                    assert(idx[p] == old_idx[p - 1] && idx[q] == old_idx[q - 1]);
                } else {
                    assert(out@[p] == before[p] && out@[q] == before[q - 1]);
                    assert(idx[p] == old_idx[p] && idx[q] == old_idx[q - 1]);
                }
            }
        }
        i = i + 1;
    }
    proof {
        assert(orig.subrange(0, n as int) =~= orig);
        assert forall|p: int, q: int|
            0 <= p < q < out@.len() && out@[p].created_at@ == out@[q].created_at@ implies exists|a: int, b: int|
            0 <= a < b < orig.len() && #[trigger] orig[a] == out@[p] && #[trigger] orig[b] == out@[q] by {
            assert(idx[p] < idx[q]);
            assert(orig[idx[p]] == out@[p] && orig[idx[q]] == out@[q]);
        }
    }
    out
}

} // verus!
