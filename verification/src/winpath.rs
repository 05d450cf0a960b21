//! Windows path helpers: the long-path prefix, and editing the value of the
//! user `Path` variable (a `;`-separated list) to add or remove the shims
//! directory. Reading and writing the registry is left to the caller.
use crate::paths::{is_ascii_alpha, is_sep};
use crate::text::{
    cat, eq_ignore_case, eq_ignore_case_str, find_from, lemma_find_from, lemma_find_from_absent,
    lemma_find_from_at, split_char, split_from, split_str, starts_with, starts_with_str, views,
};
use vstd::prelude::*;

verus! {

/// `Path::is_absolute` on Windows for a path that does not start with `\\`:
/// a drive letter, a colon and a separator.
pub open spec fn is_absolute_drive(s: Seq<char>) -> bool {
    s.len() >= 3 && is_ascii_alpha(s[0]) && s[1] == ':' && is_sep(s[2])
}

/// The `\\?\` form of an absolute path, which lifts the MAX_PATH limit;
/// paths that already start with `\\` and relative paths stay as they are.
pub open spec fn long_path_of(s: Seq<char>) -> Seq<char> {
    if starts_with(s, "\\\\"@) {
        s
    } else if is_absolute_drive(s) {
        "\\\\?\\"@ + s
    } else {
        s
    }
}

pub fn long_path(p: &str) -> (r: String)
    ensures
        r@ == long_path_of(p@),
{
    if starts_with_str(p, "\\\\") {
        return String::from_str(p);
    }
    let n = p.unicode_len();
    if n >= 3 {
        let c0 = p.get_char(0) as u32;
        let c1 = p.get_char(1);
        let c2 = p.get_char(2);
        if ((65 <= c0 && c0 <= 90) || (97 <= c0 && c0 <= 122)) && c1 == ':' && (c2 == '\\' || c2
            == '/') {
            return cat("\\\\?\\", p);
        }
    }
    String::from_str(p)
}

/// The entries of a `Path` value that are kept when `dir` is taken out: the
/// non-empty ones that differ from `dir` ignoring ASCII case.
pub open spec fn kept_entries(parts: Seq<Seq<char>>, dir: Seq<char>) -> Seq<Seq<char>>
    decreases parts.len(),
{
    if parts.len() == 0 {
        Seq::empty()
    } else {
        let rest = kept_entries(parts.drop_last(), dir);
        let p = parts.last();
        if p.len() > 0 && !eq_ignore_case(p, dir) {
            rest.push(p)
        } else {
            rest
        }
    }
}

/// `parts.join(sep)`.
pub open spec fn join_with(parts: Seq<Seq<char>>, sep: Seq<char>) -> Seq<char>
    decreases parts.len(),
{
    if parts.len() == 0 {
        Seq::empty()
    } else if parts.len() == 1 {
        parts[0]
    } else {
        join_with(parts.drop_last(), sep) + sep + parts.last()
    }
}

/// The user `Path` value without the shims directory.
pub open spec fn without_dir_of(old: Seq<char>, dir: Seq<char>) -> Seq<char> {
    join_with(kept_entries(split_char(old, ';'), dir), ";"@)
}

/// The user `Path` value with the shims directory first, and nowhere else.
pub open spec fn with_dir_first_of(old: Seq<char>, dir: Seq<char>) -> Seq<char> {
    join_with(seq![dir] + kept_entries(split_char(old, ';'), dir), ";"@)
}

fn kept_of_split<'a>(old: &'a str, dir: &str) -> (r: Vec<&'a str>)
    ensures
        views(r@) == kept_entries(split_char(old@, ';'), dir@),
{
    let parts = split_str(old, ';');
    let mut kept: Vec<&str> = Vec::new();
    let n = parts.len();
    let mut i: usize = 0;
    while i < n
        invariant
            n == parts@.len(),
            i <= n,
            views(parts@) == split_char(old@, ';'),
            views(kept@) == kept_entries(views(parts@).subrange(0, i as int), dir@),
        decreases n - i,
    {
        let p = parts[i];
        let ghost before = kept@;
        proof {
            let s = views(parts@).subrange(0, i + 1);
            assert(s.drop_last() =~= views(parts@).subrange(0, i as int));
            assert(s.last() == p@);
        }
        if p.unicode_len() > 0 && !eq_ignore_case_str(p, dir) {
            kept.push(p);
            assert(views(kept@) =~= views(before).push(p@));
        }
        i = i + 1;
    }
    assert(views(parts@).subrange(0, n as int) =~= views(parts@));
    kept
}

fn join_semicolon(parts: &Vec<&str>) -> (r: String)
    ensures
        r@ == join_with(views(parts@), ";"@),
{
    let mut s = String::new();
    let n = parts.len();
    let mut i: usize = 0;
    proof {
        reveal_strlit(";");
    }
    while i < n
        invariant
            n == parts@.len(),
            i <= n,
            s@ == join_with(views(parts@).subrange(0, i as int), ";"@),
        decreases n - i,
    {
        proof {
            let t = views(parts@).subrange(0, i + 1);
            assert(t.drop_last() =~= views(parts@).subrange(0, i as int));
            assert(t.last() == parts@[i as int]@);
            if i == 0 {
                assert(t[0] == parts@[0]@);
            }
        }
        if i > 0 {
            s.append(";");
        } else {
            assert(s@ =~= Seq::<char>::empty());
        }
        s.append(parts[i]);
        i = i + 1;
    }
    assert(views(parts@).subrange(0, n as int) =~= views(parts@));
    s
}

/// The new value of the user `Path` once the shims directory is removed
/// from `old`: empty entries and every entry equal to `shims_dir` (ignoring
/// ASCII case) are dropped; the rest keep their order.
pub fn remove_shims_from_user_path(old: &str, shims_dir: &str) -> (r: String)
    ensures
        r@ == without_dir_of(old@, shims_dir@),
{
    let kept = kept_of_split(old, shims_dir);
    join_semicolon(&kept)
}

/// The new value of the user `Path` with the shims directory in front:
/// `shims_dir`, then the entries that
/// [`remove_shims_from_user_path`] keeps.
pub fn prepend_shims_to_user_path<'a>(old: &'a str, shims_dir: &'a str) -> (r: String)
    ensures
        r@ == with_dir_first_of(old@, shims_dir@),
{
    let kept = kept_of_split(old, shims_dir);
    let mut all: Vec<&str> = Vec::new();
    all.push(shims_dir);
    let n = kept.len();
    let mut i: usize = 0;
    while i < n
        invariant
            n == kept@.len(),
            i <= n,
            views(all@) == seq![shims_dir@] + views(kept@).subrange(0, i as int),
        decreases n - i,
    {
        let ghost before = all@;
        all.push(kept[i]);
        assert(views(all@) =~= views(before).push(kept@[i as int]@));
        assert(views(kept@).subrange(0, i + 1) =~= views(kept@).subrange(0, i as int).push(
            kept@[i as int]@,
        ));
        assert(views(all@) =~= seq![shims_dir@] + views(kept@).subrange(0, i + 1));
        i = i + 1;
    }
    assert(views(kept@).subrange(0, n as int) =~= views(kept@));
    join_semicolon(&all)
}

/// The UTF-16 code units of one character, little-endian: one unit below
/// U+10000, else a surrogate pair.
pub open spec fn char_utf16le(c: char) -> Seq<u8> {
    let u = c as u32;
    if u < 0x10000 {
        seq![(u % 256) as u8, (u / 256) as u8]
    } else {
        let v = u - 0x10000;
        let hi = 0xD800 + v / 1024;
        let lo = 0xDC00 + v % 1024;
        seq![(hi % 256) as u8, (hi / 256) as u8, (lo % 256) as u8, (lo / 256) as u8]
    }
}

/// A string in UTF-16LE.
pub open spec fn utf16le_of(s: Seq<char>) -> Seq<u8>
    decreases s.len(),
{
    if s.len() == 0 {
        Seq::empty()
    } else {
        utf16le_of(s.drop_last()) + char_utf16le(s.last())
    }
}

/// A registry string value: the text in UTF-16LE with a NUL terminator.
pub fn utf16le_bytes(s: &str) -> (r: Vec<u8>)
    ensures
        r@ == utf16le_of(s@) + seq![0u8, 0u8],
{
    let n = s.unicode_len();
    let mut v: Vec<u8> = Vec::new();
    let mut i: usize = 0;
    while i < n
        invariant
            n == s@.len(),
            i <= n,
            v@ == utf16le_of(s@.take(i as int)),
        decreases n - i,
    {
        let c = s.get_char(i);
        let u = c as u32;
        let ghost before = v@;
        if u < 0x10000 {
            v.push((u % 256) as u8);
            v.push((u / 256) as u8);
        } else {
            let w = u - 0x10000;
            let hi = 0xD800 + w / 1024;
            let lo = 0xDC00 + w % 1024;
            v.push((hi % 256) as u8);
            v.push((hi / 256) as u8);
            v.push((lo % 256) as u8);
            v.push((lo / 256) as u8);
        }
        proof {
            assert(s@.take(i + 1).drop_last() =~= s@.take(i as int));
            assert(s@.take(i + 1).last() == c);
            assert(v@ =~= before + char_utf16le(c));
        }
        i = i + 1;
    }
    assert(s@.take(n as int) =~= s@);
    v.push(0);
    v.push(0);
    assert(v@ =~= utf16le_of(s@) + seq![0u8, 0u8]);
    v
}

pub open spec fn no_char(s: Seq<char>, c: char) -> bool {
    forall|i: int| 0 <= i < s.len() ==> s[i] != c
}

proof fn lemma_split_join(parts: Seq<Seq<char>>)
    requires
        parts.len() > 0,
        forall|i: int| 0 <= i < parts.len() ==> no_char(#[trigger] parts[i], ';'),
    ensures
        split_char(join_with(parts, seq![';']), ';') == parts,
    decreases parts.len(),
{
    let s = join_with(parts, seq![';']);
    if parts.len() == 1 {
        lemma_find_from_absent(s, ';', 0);
        assert(s.subrange(0, s.len() as int) =~= s);
    } else {
        let init = parts.drop_last();
        let a = join_with(init, seq![';']);
        let b = parts.last();
        assert(no_char(b, ';'));
        lemma_split_join(init);
        assert(s == a + seq![';'] + b);
        // the pieces of `a` are the pieces of `s` before `a.len()`
        lemma_split_prefix(a, b, 0);
        assert(split_char(s, ';') =~= parts);
    }
}

/// Splitting `a ; b` from a point inside `a`: the pieces of `a` from there,
/// with the last one continuing until the `;`, then `b`.
proof fn lemma_split_prefix(a: Seq<char>, b: Seq<char>, i: int)
    requires
        0 <= i <= a.len(),
        no_char(b, ';'),
    ensures
        split_from(a + seq![';'] + b, ';', i) == split_from(a, ';', i) + seq![b],
    decreases a.len() - i,
{
    let s = a + seq![';'] + b;
    lemma_find_from(a, ';', i);
    match find_from(a, ';', i) {
        Some(k) => {
            assert forall|j: int| i <= j < k implies s[j] != ';' by {
                assert(s[j] == a[j]);
            }
            lemma_find_from_at(s, ';', i, k);
            lemma_split_prefix(a, b, k + 1);
            assert(s.subrange(i, k) =~= a.subrange(i, k));
            assert(split_from(s, ';', i) == seq![a.subrange(i, k)] + split_from(s, ';', k + 1));
            assert(split_from(a, ';', i) == seq![a.subrange(i, k)] + split_from(a, ';', k + 1));
            assert(seq![a.subrange(i, k)] + (split_from(a, ';', k + 1) + seq![b]) =~= (seq![
                a.subrange(i, k),
            ] + split_from(a, ';', k + 1)) + seq![b]);
        },
        None => {
            let k = a.len() as int;
            assert forall|j: int| i <= j < k implies s[j] != ';' by {
                assert(s[j] == a[j]);
            }
            lemma_find_from_at(s, ';', i, k);
            assert forall|j: int| k + 1 <= j < s.len() implies s[j] != ';' by {
                assert(s[j] == b[j - k - 1]);
            }
            lemma_find_from_absent(s, ';', k + 1);
            assert(s.subrange(i, k) =~= a.subrange(i, a.len() as int));
            assert(s.subrange(k + 1, s.len() as int) =~= b);
            assert(split_from(s, ';', k + 1) == seq![b]);
            assert(split_from(a, ';', i) == seq![a.subrange(i, a.len() as int)]);
            assert(split_from(s, ';', i) == seq![a.subrange(i, a.len() as int)] + seq![b]);
        },
    }
}

proof fn lemma_kept_entries_props(parts: Seq<Seq<char>>, dir: Seq<char>)
    ensures
        forall|i: int|
            0 <= i < kept_entries(parts, dir).len() ==> (#[trigger] kept_entries(parts, dir)[i]).len()
                > 0 && !eq_ignore_case(kept_entries(parts, dir)[i], dir),
        (forall|i: int| 0 <= i < parts.len() ==> no_char(#[trigger] parts[i], ';')) ==> forall|
            i: int,
        |
            0 <= i < kept_entries(parts, dir).len() ==> no_char(
                #[trigger] kept_entries(parts, dir)[i],
                ';',
            ),
        (forall|i: int|
            0 <= i < parts.len() ==> (#[trigger] parts[i]).len() > 0 && !eq_ignore_case(
                parts[i],
                dir,
            )) ==> kept_entries(parts, dir) == parts,
    decreases parts.len(),
{
    if parts.len() > 0 {
        let init = parts.drop_last();
        lemma_kept_entries_props(init, dir);
        assert forall|i: int| 0 <= i < init.len() implies #[trigger] init[i] == parts[i] by {}
        if forall|i: int|
            0 <= i < parts.len() ==> (#[trigger] parts[i]).len() > 0 && !eq_ignore_case(
                parts[i],
                dir,
            ) {
            assert(parts[parts.len() - 1] == parts.last());
            assert(kept_entries(init, dir) == init);
            assert(init.push(parts.last()) =~= parts);
        }
        if forall|i: int| 0 <= i < parts.len() ==> no_char(#[trigger] parts[i], ';') {
            assert(parts[parts.len() - 1] == parts.last());
        }
    }
}

proof fn lemma_kept_skips_dir(rest: Seq<Seq<char>>, dir: Seq<char>)
    requires
        dir.len() > 0,
    ensures
        kept_entries(seq![dir] + rest, dir) == kept_entries(rest, dir),
    decreases rest.len(),
{
    if rest.len() == 0 {
        assert((seq![dir] + rest).drop_last() =~= Seq::<Seq<char>>::empty());
        assert(eq_ignore_case(dir, dir));
        assert((seq![dir] + rest).last() == dir);
        assert(kept_entries(Seq::<Seq<char>>::empty(), dir) =~= Seq::<Seq<char>>::empty());
    } else {
        lemma_kept_skips_dir(rest.drop_last(), dir);
        assert((seq![dir] + rest).drop_last() =~= seq![dir] + rest.drop_last());
        assert((seq![dir] + rest).last() == rest.last());
    }
}

/// Putting the shims directory first and then taking it out leaves the user
/// `Path` as taking it out alone does: the two edits undo each other. This
/// holds for any directory without `;` in it.
pub proof fn lemma_remove_after_prepend(old: Seq<char>, dir: Seq<char>)
    requires
        dir.len() > 0,
        no_char(dir, ';'),
    ensures
        without_dir_of(with_dir_first_of(old, dir), dir) == without_dir_of(old, dir),
{
    reveal_strlit(";");
    let k = kept_entries(split_char(old, ';'), dir);
    let all = seq![dir] + k;
    lemma_kept_entries_props(split_char(old, ';'), dir);
    lemma_split_pieces_no_sep(old);
    assert forall|i: int| 0 <= i < all.len() implies no_char(#[trigger] all[i], ';') by {
        if i > 0 {
            assert(all[i] == k[i - 1]);
        }
    }
    lemma_split_join(all);
    assert(";"@ =~= seq![';']);
    lemma_kept_skips_dir(k, dir);
    lemma_kept_entries_props(k, dir);
}

/// Putting the shims directory first twice is putting it first once.
pub proof fn lemma_prepend_idempotent(old: Seq<char>, dir: Seq<char>)
    requires
        dir.len() > 0,
        no_char(dir, ';'),
    ensures
        with_dir_first_of(with_dir_first_of(old, dir), dir) == with_dir_first_of(old, dir),
{
    reveal_strlit(";");
    let k = kept_entries(split_char(old, ';'), dir);
    let all = seq![dir] + k;
    lemma_kept_entries_props(split_char(old, ';'), dir);
    lemma_split_pieces_no_sep(old);
    assert forall|i: int| 0 <= i < all.len() implies no_char(#[trigger] all[i], ';') by {
        if i > 0 {
            assert(all[i] == k[i - 1]);
        }
    }
    lemma_split_join(all);
    assert(";"@ =~= seq![';']);
    lemma_kept_skips_dir(k, dir);
    lemma_kept_entries_props(k, dir);
}

/// Taking the shims directory out twice is taking it out once.
pub proof fn lemma_remove_idempotent(old: Seq<char>, dir: Seq<char>)
    ensures
        without_dir_of(without_dir_of(old, dir), dir) == without_dir_of(old, dir),
{
    reveal_strlit(";");
    let k = kept_entries(split_char(old, ';'), dir);
    lemma_kept_entries_props(split_char(old, ';'), dir);
    lemma_split_pieces_no_sep(old);
    assert(";"@ =~= seq![';']);
    if k.len() == 0 {
        let e = Seq::<char>::empty();
        assert(join_with(k, ";"@) == e);
        lemma_find_from_absent(e, ';', 0);
        assert(e.subrange(0, 0) =~= e);
        assert(split_char(e, ';') =~= seq![e]);
        assert(seq![e].drop_last() =~= Seq::<Seq<char>>::empty());
        assert(seq![e].last() == e);
        assert(kept_entries(Seq::<Seq<char>>::empty(), dir) =~= Seq::<Seq<char>>::empty());
        assert(kept_entries(seq![e], dir) =~= Seq::<Seq<char>>::empty());
    } else {
        lemma_split_join(k);
        lemma_kept_entries_props(k, dir);
    }
}

proof fn lemma_split_from_no_sep(s: Seq<char>, c: char, i: int)
    requires
        0 <= i <= s.len(),
    ensures
        forall|j: int|
            0 <= j < split_from(s, c, i).len() ==> no_char(#[trigger] split_from(s, c, i)[j], c),
    decreases s.len() - i,
{
    lemma_find_from(s, c, i);
    match find_from(s, c, i) {
        Some(k) => {
            lemma_split_from_no_sep(s, c, k + 1);
            let rest = split_from(s, c, k + 1);
            let whole = split_from(s, c, i);
            assert forall|j: int| 0 <= j < whole.len() implies no_char(#[trigger] whole[j], c) by {
                if j > 0 {
                    assert(whole[j] == rest[j - 1]);
                } else {
                    assert(whole[0] == s.subrange(i, k));
                }
            }
        },
        None => {
            assert(split_from(s, c, i)[0] == s.subrange(i, s.len() as int));
        },
    }
}

proof fn lemma_split_pieces_no_sep(s: Seq<char>)
    ensures
        forall|j: int|
            0 <= j < split_char(s, ';').len() ==> no_char(#[trigger] split_char(s, ';')[j], ';'),
{
    lemma_split_from_no_sep(s, ';', 0);
}

} // verus!
