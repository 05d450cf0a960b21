//! Character-level text utilities with their mathematical meaning: trimming,
//! searching, ASCII case folding, decimal numerals.
use vstd::prelude::*;

verus! {

// ---------------------------------------------------------------- whitespace

/// `char::is_whitespace`: the Unicode `White_Space` property.
pub open spec fn is_ws(c: char) -> bool {
    let u = c as u32;
    ||| 9 <= u <= 13
    ||| u == 32
    ||| u == 0x85
    ||| u == 0xa0
    ||| u == 0x1680
    ||| 0x2000 <= u <= 0x200a
    ||| u == 0x2028
    ||| u == 0x2029
    ||| u == 0x202f
    ||| u == 0x205f
    ||| u == 0x3000
}

/// First index at or after `i` that does not hold whitespace.
pub open spec fn skip_ws_front(s: Seq<char>, i: int) -> int
    decreases s.len() - i,
{
    if 0 <= i < s.len() && is_ws(s[i]) {
        skip_ws_front(s, i + 1)
    } else {
        i
    }
}

/// End of `s.subrange(0, j)` once trailing whitespace is removed.
pub open spec fn skip_ws_back(s: Seq<char>, j: int) -> int
    decreases j,
{
    if 0 < j <= s.len() && is_ws(s[j - 1]) {
        skip_ws_back(s, j - 1)
    } else {
        j
    }
}

/// `str::trim`: leading and trailing whitespace removed.
pub open spec fn trim(s: Seq<char>) -> Seq<char> {
    let a = skip_ws_front(s, 0);
    let b = skip_ws_back(s, s.len() as int);
    if a < b {
        s.subrange(a, b)
    } else {
        Seq::empty()
    }
}

pub fn is_ws_char(c: char) -> (b: bool)
    ensures
        b == is_ws(c),
{
    let u = c as u32;
    (9 <= u && u <= 13) || u == 32 || u == 0x85 || u == 0xa0 || u == 0x1680 || (0x2000 <= u && u
        <= 0x200a) || u == 0x2028 || u == 0x2029 || u == 0x202f || u == 0x205f || u == 0x3000
}

pub fn trim_str(s: &str) -> (r: &str)
    ensures
        r@ == trim(s@),
{
    let n = s.unicode_len();
    let mut a: usize = 0;
    while a < n && is_ws_char(s.get_char(a))
        invariant
            n == s@.len(),
            a <= n,
            skip_ws_front(s@, 0) == skip_ws_front(s@, a as int),
        decreases n - a,
    {
        a = a + 1;
    }
    let mut b: usize = n;
    while b > 0 && is_ws_char(s.get_char(b - 1))
        invariant
            n == s@.len(),
            b <= n,
            skip_ws_back(s@, n as int) == skip_ws_back(s@, b as int),
        decreases b,
    {
        b = b - 1;
    }
    if a < b {
        s.substring_char(a, b)
    } else {
        let e = "";
        proof {
            reveal_strlit("");
        }
        e
    }
}

/// A text without one leading byte-order mark (U+FEFF), if it has one.
pub open spec fn strip_bom(s: Seq<char>) -> Seq<char> {
    if s.len() > 0 && s[0] == '\u{FEFF}' {
        s.drop_first()
    } else {
        s
    }
}

/// What a version file holds: one leading byte-order mark dropped, then
/// surrounding whitespace (blanks, CR and LF among it) trimmed.
pub open spec fn trim_file(s: Seq<char>) -> Seq<char> {
    trim(strip_bom(s))
}

pub fn strip_bom_str(s: &str) -> (r: &str)
    ensures
        r@ == strip_bom(s@),
{
    let n = s.unicode_len();
    if n > 0 && s.get_char(0) == '\u{FEFF}' {
        let r = s.substring_char(1, n);
        proof {
            assert(r@ =~= s@.drop_first());
        }
        r
    } else {
        s
    }
}

pub fn trim_file_str(s: &str) -> (r: &str)
    ensures
        r@ == trim_file(s@),
{
    trim_str(strip_bom_str(s))
}

/// Concatenation of two strings into a new `String`.
pub fn cat(a: &str, b: &str) -> (r: String)
    ensures
        r@ == a@ + b@,
{
    let mut s = String::from_str(a);
    s.append(b);
    s
}

// ---------------------------------------------------------------- searching

/// Index of the first `c` at or after `i`.
pub open spec fn find_from(s: Seq<char>, c: char, i: int) -> Option<int>
    decreases s.len() - i,
{
    if i < 0 || i >= s.len() {
        None
    } else if s[i] == c {
        Some(i)
    } else {
        find_from(s, c, i + 1)
    }
}

/// `str::find` for one character.
pub open spec fn find_first(s: Seq<char>, c: char) -> Option<int> {
    find_from(s, c, 0)
}

/// Index of the last `c` strictly before `j`.
pub open spec fn rfind_before(s: Seq<char>, c: char, j: int) -> Option<int>
    decreases j,
{
    if j <= 0 || j > s.len() {
        None
    } else if s[j - 1] == c {
        Some(j - 1)
    } else {
        rfind_before(s, c, j - 1)
    }
}

/// `str::rfind` for one character.
pub open spec fn find_last(s: Seq<char>, c: char) -> Option<int> {
    rfind_before(s, c, s.len() as int)
}

pub open spec fn contains_char(s: Seq<char>, c: char) -> bool {
    exists|i: int| 0 <= i < s.len() && s[i] == c
}

pub proof fn lemma_find_from(s: Seq<char>, c: char, i: int)
    requires
        0 <= i,
    ensures
        match find_from(s, c, i) {
            Some(k) => i <= k < s.len() && s[k] == c && forall|j: int| i <= j < k ==> s[j] != c,
            None => forall|j: int| i <= j < s.len() ==> s[j] != c,
        },
    decreases s.len() - i,
{
    if i < s.len() && s[i] != c {
        lemma_find_from(s, c, i + 1);
    }
}

pub proof fn lemma_rfind_before(s: Seq<char>, c: char, j: int)
    requires
        j <= s.len(),
    ensures
        match rfind_before(s, c, j) {
            Some(k) => 0 <= k < j && s[k] == c && forall|m: int| k < m < j ==> s[m] != c,
            None => forall|m: int| 0 <= m < j ==> s[m] != c,
        },
    decreases j,
{
    if j > 0 && s[j - 1] != c {
        lemma_rfind_before(s, c, j - 1);
    }
}

pub proof fn lemma_find_from_at(s: Seq<char>, c: char, i: int, k: int)
    requires
        0 <= i <= k < s.len(),
        s[k] == c,
        forall|j: int| i <= j < k ==> s[j] != c,
    ensures
        find_from(s, c, i) == Some(k),
    decreases k - i,
{
    if i < k {
        lemma_find_from_at(s, c, i + 1, k);
    }
}

pub proof fn lemma_find_from_absent(s: Seq<char>, c: char, i: int)
    requires
        0 <= i,
        forall|j: int| i <= j < s.len() ==> s[j] != c,
    ensures
        find_from(s, c, i) is None,
    decreases s.len() - i,
{
    if i < s.len() {
        lemma_find_from_absent(s, c, i + 1);
    }
}

pub proof fn lemma_rfind_at(s: Seq<char>, c: char, j: int, k: int)
    requires
        0 <= k < j <= s.len(),
        s[k] == c,
        forall|m: int| k < m < j ==> s[m] != c,
    ensures
        rfind_before(s, c, j) == Some(k),
    decreases j - k,
{
    if k < j - 1 {
        lemma_rfind_at(s, c, j - 1, k);
    }
}

pub proof fn lemma_find_first_contains(s: Seq<char>, c: char)
    ensures
        find_first(s, c) is Some <==> contains_char(s, c),
{
    lemma_find_from(s, c, 0);
}

/// Position of the first `c` in `s`, as `str::find` gives it (in characters).
pub fn find_char(s: &str, c: char) -> (r: Option<usize>)
    ensures
        r matches Some(i) ==> find_first(s@, c) == Some(i as int),
        r is None ==> find_first(s@, c) is None,
{
    let n = s.unicode_len();
    let mut i: usize = 0;
    while i < n
        invariant
            n == s@.len(),
            i <= n,
            find_from(s@, c, 0) == find_from(s@, c, i as int),
        decreases n - i,
    {
        if s.get_char(i) == c {
            return Some(i);
        }
        i = i + 1;
    }
    None
}

/// Position of the last `c` in `s`, as `str::rfind` gives it (in characters).
pub fn rfind_char(s: &str, c: char) -> (r: Option<usize>)
    ensures
        r matches Some(i) ==> find_last(s@, c) == Some(i as int),
        r is None ==> find_last(s@, c) is None,
{
    let n = s.unicode_len();
    let mut j: usize = n;
    while j > 0
        invariant
            n == s@.len(),
            j <= n,
            rfind_before(s@, c, n as int) == rfind_before(s@, c, j as int),
        decreases j,
    {
        if s.get_char(j - 1) == c {
            return Some(j - 1);
        }
        j = j - 1;
    }
    None
}

/// Position of the first `c` at or after character `i`.
pub fn find_char_from(s: &str, c: char, i: usize) -> (r: Option<usize>)
    ensures
        r matches Some(k) ==> find_from(s@, c, i as int) == Some(k as int),
        r is None ==> find_from(s@, c, i as int) is None,
{
    let n = s.unicode_len();
    let mut j: usize = i;
    if j > n {
        return None;
    }
    while j < n
        invariant
            n == s@.len(),
            i <= j <= n,
            find_from(s@, c, i as int) == find_from(s@, c, j as int),
        decreases n - j,
    {
        if s.get_char(j) == c {
            return Some(j);
        }
        j = j + 1;
    }
    None
}

/// The pieces of `s.subrange(i, len)` between occurrences of `c`.
pub open spec fn split_from(s: Seq<char>, c: char, i: int) -> Seq<Seq<char>>
    decreases s.len() - i,
{
    if i < 0 || i > s.len() {
        Seq::empty()
    } else {
        match find_from(s, c, i) {
            Some(k) => if k < i || k >= s.len() {
                Seq::empty()
            } else {
                seq![s.subrange(i, k)] + split_from(s, c, k + 1)
            },
            None => seq![s.subrange(i, s.len() as int)],
        }
    }
}

/// `str::split` on one character: always at least one piece.
pub open spec fn split_char(s: Seq<char>, c: char) -> Seq<Seq<char>> {
    split_from(s, c, 0)
}

pub open spec fn views(v: Seq<&str>) -> Seq<Seq<char>> {
    v.map_values(|p: &str| p@)
}

/// `str::split(c).collect::<Vec<&str>>()`.
pub fn split_str(s: &str, c: char) -> (r: Vec<&str>)
    ensures
        views(r@) == split_char(s@, c),
{
    let n = s.unicode_len();
    let mut parts: Vec<&str> = Vec::new();
    let mut i: usize = 0;
    loop
        invariant
            n == s@.len(),
            i <= n,
            views(parts@) + split_from(s@, c, i as int) == split_from(s@, c, 0),
        decreases n - i,
    {
        let ghost before = parts@;
        proof {
            lemma_find_from(s@, c, i as int);
        }
        match find_char_from(s, c, i) {
            Some(k) => {
                let part = s.substring_char(i, k);
                parts.push(part);
                proof {
                    assert(views(parts@) =~= views(before).push(part@));
                    assert(split_from(s@, c, i as int) == seq![part@] + split_from(
                        s@,
                        c,
                        k + 1,
                    ));
                    assert(views(parts@) + split_from(s@, c, k + 1) =~= views(before) + split_from(
                        s@,
                        c,
                        i as int,
                    ));
                }
                i = k + 1;
            },
            None => {
                let part = s.substring_char(i, n);
                parts.push(part);
                proof {
                    assert(views(parts@) =~= views(before).push(part@));
                    assert(split_from(s@, c, i as int) == seq![part@]);
                    assert(views(parts@) =~= views(before) + split_from(s@, c, i as int));
                }
                return parts;
            },
        }
    }
}

/// A line as `str::lines` gives it: a piece that ended in `\n` loses one
/// `\r` before it.
pub open spec fn strip_cr(p: Seq<char>) -> Seq<char> {
    if p.len() > 0 && p.last() == '\r' {
        p.drop_last()
    } else {
        p
    }
}

/// `str::lines`: the pieces between line feeds, each without a `\r` that
/// stood before its line feed; no piece after a final line feed.
pub open spec fn lines_of(s: Seq<char>) -> Seq<Seq<char>> {
    let parts = split_char(s, '\n');
    let body = parts.drop_last().map_values(|p: Seq<char>| strip_cr(p));
    if parts.last().len() == 0 {
        body
    } else {
        body.push(parts.last())
    }
}

/// `str::lines().collect::<Vec<&str>>()`.
pub fn lines(s: &str) -> (r: Vec<&str>)
    ensures
        views(r@) == lines_of(s@),
{
    let parts = split_str(s, '\n');
    let ghost ps = split_char(s@, '\n');
    proof {
        lemma_split_nonempty(s@, '\n');
    }
    let k = parts.len();
    let mut out: Vec<&str> = Vec::new();
    let mut i: usize = 0;
    while i + 1 < k
        invariant
            k == parts@.len(),
            k >= 1,
            views(parts@) == ps,
            i + 1 <= k,
            views(out@) == ps.take(i as int).map_values(|p: Seq<char>| strip_cr(p)),
        decreases k - i,
    {
        let p = parts[i];
        assert(p@ == ps[i as int]);
        let n = p.unicode_len();
        let line = if n > 0 && p.get_char(n - 1) == '\r' {
            p.substring_char(0, n - 1)
        } else {
            p
        };
        let ghost before = out@;
        out.push(line);
        proof {
            assert(line@ =~= strip_cr(ps[i as int]));
            assert(ps.take(i + 1) =~= ps.take(i as int).push(ps[i as int]));
            assert(views(out@) =~= views(before).push(line@));
            assert(ps.take(i + 1).map_values(|p: Seq<char>| strip_cr(p)) =~= ps.take(
                i as int,
            ).map_values(|p: Seq<char>| strip_cr(p)).push(strip_cr(ps[i as int])));
        }
        i = i + 1;
    }
    assert(ps.take(i as int) =~= ps.drop_last());
    let last = parts[k - 1];
    assert(last@ == ps.last());
    if last.unicode_len() > 0 {
        let ghost before = out@;
        out.push(last);
        assert(views(out@) =~= views(before).push(last@));
    }
    out
}

pub proof fn lemma_split_from_nonempty(s: Seq<char>, c: char, i: int)
    requires
        0 <= i <= s.len(),
    ensures
        split_from(s, c, i).len() >= 1,
    decreases s.len() - i,
{
    lemma_find_from(s, c, i);
    match find_from(s, c, i) {
        Some(k) => {
            lemma_split_from_nonempty(s, c, k + 1);
        },
        None => {},
    }
}

pub proof fn lemma_split_nonempty(s: Seq<char>, c: char)
    ensures
        split_char(s, c).len() >= 1,
{
    lemma_split_from_nonempty(s, c, 0);
}

/// `str::to_lowercase`, the Unicode lowercase mapping.
pub uninterp spec fn lowercase_of(s: Seq<char>) -> Seq<char>;

/// Calls `str::to_lowercase`; its result is the Unicode lowercase of `s`,
/// named and not stated further.
#[verifier::external_body]
pub(crate) fn to_lower(s: &str) -> (r: String)
    ensures
        r@ == lowercase_of(s@),
{
    s.to_lowercase()
}

// ---------------------------------------------------------------- prefixes

pub open spec fn starts_with(s: Seq<char>, p: Seq<char>) -> bool {
    p.len() <= s.len() && s.subrange(0, p.len() as int) == p
}

pub open spec fn ends_with(s: Seq<char>, p: Seq<char>) -> bool {
    p.len() <= s.len() && s.subrange(s.len() - p.len(), s.len() as int) == p
}

pub fn starts_with_str(s: &str, p: &str) -> (b: bool)
    ensures
        b == starts_with(s@, p@),
{
    let n = s.unicode_len();
    let m = p.unicode_len();
    if m > n {
        return false;
    }
    let mut i: usize = 0;
    while i < m
        invariant
            n == s@.len(),
            m == p@.len(),
            m <= n,
            i <= m,
            forall|k: int| 0 <= k < i ==> s@[k] == p@[k],
        decreases m - i,
    {
        if s.get_char(i) != p.get_char(i) {
            assert(s@.subrange(0, m as int)[i as int] != p@[i as int]);
            return false;
        }
        i = i + 1;
    }
    assert(s@.subrange(0, m as int) =~= p@);
    true
}

pub fn ends_with_str(s: &str, p: &str) -> (b: bool)
    ensures
        b == ends_with(s@, p@),
{
    let n = s.unicode_len();
    let m = p.unicode_len();
    if m > n {
        return false;
    }
    let off = n - m;
    let mut i: usize = 0;
    while i < m
        invariant
            n == s@.len(),
            m == p@.len(),
            m <= n,
            off == n - m,
            i <= m,
            forall|k: int| 0 <= k < i ==> s@[off + k] == p@[k],
        decreases m - i,
    {
        if s.get_char(off + i) != p.get_char(i) {
            assert(s@.subrange(off as int, n as int)[i as int] != p@[i as int]);
            return false;
        }
        i = i + 1;
    }
    assert(s@.subrange(off as int, n as int) =~= p@);
    true
}

/// `p` occurs in `s` starting at `i`.
pub open spec fn occurs_at(s: Seq<char>, p: Seq<char>, i: int) -> bool {
    0 <= i && i + p.len() <= s.len() && s.subrange(i, i + p.len()) == p
}

/// `str::contains` for a string pattern.
pub open spec fn has_sub(s: Seq<char>, p: Seq<char>) -> bool {
    exists|i: int| occurs_at(s, p, i)
}

/// Whether `p` occurs in `s` at `i` (`i + |p| <= |s|`).
pub fn occurs_at_str(s: &str, p: &str, i: usize) -> (b: bool)
    requires
        i + p@.len() <= s@.len(),
    ensures
        b == occurs_at(s@, p@, i as int),
{
    let n = s.unicode_len();
    let m = p.unicode_len();
    let mut k: usize = 0;
    while k < m
        invariant
            n == s@.len(),
            m == p@.len(),
            i + m <= s@.len(),
            k <= m,
            forall|t: int| 0 <= t < k ==> s@[i + t] == p@[t],
        decreases m - k,
    {
        if s.get_char(i + k) != p.get_char(k) {
            assert(s@.subrange(i as int, i + m)[k as int] != p@[k as int]);
            return false;
        }
        k = k + 1;
    }
    assert(s@.subrange(i as int, i + m) =~= p@);
    true
}

/// `str::contains` for a string pattern.
pub fn contains_str(s: &str, p: &str) -> (b: bool)
    ensures
        b == has_sub(s@, p@),
{
    let n = s.unicode_len();
    let m = p.unicode_len();
    if m > n {
        return false;
    }
    if m == 0 {
        assert(s@.subrange(0, 0) =~= p@);
        assert(occurs_at(s@, p@, 0));
        return true;
    }
    let mut i: usize = 0;
    while i <= n - m
        invariant
            n == s@.len(),
            m == p@.len(),
            0 < m <= n,
            i <= n - m + 1,
            forall|t: int| 0 <= t < i ==> !occurs_at(s@, p@, t),
        decreases n - m + 1 - i,
    {
        if occurs_at_str(s, p, i) {
            return true;
        }
        i = i + 1;
    }
    false
}

/// `str::replace` from `i` on: each occurrence of `p`, taken left to right
/// without overlap, becomes `q`.
pub open spec fn replace_from(s: Seq<char>, p: Seq<char>, q: Seq<char>, i: int) -> Seq<char>
    decreases s.len() - i,
{
    if i < 0 || i >= s.len() {
        Seq::empty()
    } else if p.len() > 0 && occurs_at(s, p, i) {
        q + replace_from(s, p, q, i + p.len())
    } else {
        seq![s[i]] + replace_from(s, p, q, i + 1)
    }
}

/// `str::replace` for a nonempty pattern.
pub open spec fn replace_of(s: Seq<char>, p: Seq<char>, q: Seq<char>) -> Seq<char> {
    replace_from(s, p, q, 0)
}

/// `str::replace` for a nonempty pattern.
pub fn replace_all(s: &str, p: &str, q: &str) -> (r: String)
    ensures
        r@ == replace_of(s@, p@, q@),
{
    let n = s.unicode_len();
    let m = p.unicode_len();
    let mut out = String::new();
    let mut i: usize = 0;
    assert(out@ + replace_from(s@, p@, q@, 0) =~= replace_of(s@, p@, q@));
    while i < n
        invariant
            n == s@.len(),
            m == p@.len(),
            i <= n,
            out@ + replace_from(s@, p@, q@, i as int) == replace_of(s@, p@, q@),
        decreases n - i,
    {
        if m > 0 && m <= n - i && occurs_at_str(s, p, i) {
            let ghost o = out@;
            out.append(q);
            assert(o + replace_from(s@, p@, q@, i as int) =~= out@ + replace_from(
                s@,
                p@,
                q@,
                i + m,
            ));
            i = i + m;
        } else {
            let ghost o = out@;
            let c = s.substring_char(i, i + 1);
            out.append(c);
            assert(c@ =~= seq![s@[i as int]]);
            assert(o + replace_from(s@, p@, q@, i as int) =~= out@ + replace_from(
                s@,
                p@,
                q@,
                i + 1,
            ));
            i = i + 1;
        }
    }
    assert(out@ + replace_from(s@, p@, q@, i as int) =~= out@);
    out
}

/// Whole-string equality of two `str`s.
pub fn str_eq(a: &str, b: &str) -> (r: bool)
    ensures
        r == (a@ == b@),
{
    let n = a.unicode_len();
    let m = b.unicode_len();
    if n != m {
        return false;
    }
    let mut i: usize = 0;
    while i < n
        invariant
            n == a@.len(),
            m == b@.len(),
            n == m,
            i <= n,
            forall|k: int| 0 <= k < i ==> a@[k] == b@[k],
        decreases n - i,
    {
        if a.get_char(i) != b.get_char(i) {
            return false;
        }
        i = i + 1;
    }
    assert(a@ =~= b@);
    true
}

// ---------------------------------------------------------------- ordering

/// The order of `String`s: lexicographic by code point (the byte order of
/// UTF-8 agrees with it).
pub open spec fn lex_lt(a: Seq<char>, b: Seq<char>) -> bool
    decreases a.len(),
{
    if a.len() == 0 {
        b.len() > 0
    } else if b.len() == 0 {
        false
    } else if a[0] != b[0] {
        a[0] < b[0]
    } else {
        lex_lt(a.drop_first(), b.drop_first())
    }
}

/// `lex_lt` is a strict total order.
pub proof fn lemma_lex_total(a: Seq<char>, b: Seq<char>)
    ensures
        lex_lt(a, b) || a == b || lex_lt(b, a),
        !(lex_lt(a, b) && lex_lt(b, a)),
        !lex_lt(a, a),
    decreases a.len(),
{
    if a.len() > 0 {
        lemma_lex_total(a.drop_first(), a.drop_first());
    }
    if a.len() > 0 && b.len() > 0 {
        lemma_lex_total(a.drop_first(), b.drop_first());
        if a[0] == b[0] && a.drop_first() == b.drop_first() {
            assert(a =~= seq![a[0]] + a.drop_first());
            assert(b =~= seq![b[0]] + b.drop_first());
        }
    } else if a.len() == 0 && b.len() == 0 {
        assert(a =~= b);
    }
}

pub proof fn lemma_lex_transitive(a: Seq<char>, b: Seq<char>, c: Seq<char>)
    requires
        lex_lt(a, b),
        lex_lt(b, c),
    ensures
        lex_lt(a, c),
    decreases a.len(),
{
    if a.len() > 0 && b.len() > 0 && c.len() > 0 {
        if a[0] == b[0] && b[0] == c[0] {
            lemma_lex_transitive(a.drop_first(), b.drop_first(), c.drop_first());
        }
    }
}

/// `a < b` for strings.
pub fn str_lt(a: &str, b: &str) -> (r: bool)
    ensures
        r == lex_lt(a@, b@),
{
    let n = a.unicode_len();
    let m = b.unicode_len();
    let mut i: usize = 0;
    assert(a@.skip(0) =~= a@);
    assert(b@.skip(0) =~= b@);
    while i < n && i < m
        invariant
            n == a@.len(),
            m == b@.len(),
            i <= n,
            i <= m,
            lex_lt(a@, b@) == lex_lt(a@.skip(i as int), b@.skip(i as int)),
        decreases n - i,
    {
        let x = a.get_char(i);
        let y = b.get_char(i);
        if x != y {
            return x < y;
        }
        assert(a@.skip(i as int).drop_first() =~= a@.skip(i + 1));
        assert(b@.skip(i as int).drop_first() =~= b@.skip(i + 1));
        i = i + 1;
    }
    i == n && i < m
}

// ---------------------------------------------------------------- ASCII case

/// Code point of `c` after `char::to_ascii_lowercase`.
pub open spec fn lower_code(c: char) -> u32 {
    let u = c as u32;
    if 65 <= u <= 90 {
        (u + 32) as u32
    } else {
        u
    }
}

/// `str::eq_ignore_ascii_case`.
pub open spec fn eq_ignore_case(a: Seq<char>, b: Seq<char>) -> bool {
    a.len() == b.len() && forall|i: int| 0 <= i < a.len() ==> lower_code(a[i]) == lower_code(b[i])
}

/// `a.to_ascii_lowercase() == b`.
pub open spec fn lowered_equals(a: Seq<char>, b: Seq<char>) -> bool {
    a.len() == b.len() && forall|i: int| 0 <= i < a.len() ==> lower_code(a[i]) == (b[i] as u32)
}

pub fn lower_code_of(c: char) -> (r: u32)
    ensures
        r == lower_code(c),
{
    let u = c as u32;
    if 65 <= u && u <= 90 {
        u + 32
    } else {
        u
    }
}

pub fn eq_ignore_case_str(a: &str, b: &str) -> (r: bool)
    ensures
        r == eq_ignore_case(a@, b@),
{
    let n = a.unicode_len();
    let m = b.unicode_len();
    if n != m {
        return false;
    }
    let mut i: usize = 0;
    while i < n
        invariant
            n == a@.len(),
            m == b@.len(),
            n == m,
            i <= n,
            forall|k: int| 0 <= k < i ==> lower_code(a@[k]) == lower_code(b@[k]),
        decreases n - i,
    {
        if lower_code_of(a.get_char(i)) != lower_code_of(b.get_char(i)) {
            return false;
        }
        i = i + 1;
    }
    true
}

pub fn lowered_equals_str(a: &str, b: &str) -> (r: bool)
    ensures
        r == lowered_equals(a@, b@),
{
    let n = a.unicode_len();
    let m = b.unicode_len();
    if n != m {
        return false;
    }
    let mut i: usize = 0;
    while i < n
        invariant
            n == a@.len(),
            m == b@.len(),
            n == m,
            i <= n,
            forall|k: int| 0 <= k < i ==> lower_code(a@[k]) == (b@[k] as u32),
        decreases n - i,
    {
        if lower_code_of(a.get_char(i)) != (b.get_char(i) as u32) {
            return false;
        }
        i = i + 1;
    }
    true
}

// ---------------------------------------------------------------- decimals

pub open spec fn is_digit(c: char) -> bool {
    48 <= (c as u32) <= 57
}

pub open spec fn digit_val(c: char) -> nat {
    ((c as u32) - 48) as nat
}

pub open spec fn all_digits(s: Seq<char>) -> bool {
    forall|i: int| 0 <= i < s.len() ==> is_digit(s[i])
}

/// Whether the `regex` crate's `\d` class (`\p{Nd}`, Unicode decimal
/// digits) holds `c`, asked of characters outside ASCII.
pub uninterp spec fn regex_digit_of(c: char) -> bool;

/// A decimal digit as the `regex` crate's `\d` reads it: among ASCII the
/// digits `0`-`9` (as its documentation states), beyond ASCII the other
/// Unicode decimal digits.
pub open spec fn nd_digit(c: char) -> bool {
    if (c as u32) < 128 {
        is_digit(c)
    } else {
        regex_digit_of(c)
    }
}

pub open spec fn all_nd_digits(s: Seq<char>) -> bool {
    forall|i: int| 0 <= i < s.len() ==> nd_digit(s[i])
}

/// Matches `c` alone against the pattern `^\d$` of the `regex` crate.
#[verifier::external_body]
fn regex_digit(c: char) -> (r: bool)
    requires
        (c as u32) >= 128,
    ensures
        r == regex_digit_of(c),
{
    let mut buf = [0u8; 4];
    match regex::Regex::new(r"^\d$") {
        Ok(re) => re.is_match(c.encode_utf8(&mut buf)),
        Err(_) => false,
    }
}

/// Whether `c` is a digit of `\d`.
pub fn is_nd_digit(c: char) -> (r: bool)
    ensures
        r == nd_digit(c),
{
    if (c as u32) < 128 {
        '0' <= c && c <= '9'
    } else {
        regex_digit(c)
    }
}

/// Whether every character of `s` is a digit of `\d`.
pub fn all_nd_digits_str(s: &str) -> (r: bool)
    ensures
        r == all_nd_digits(s@),
{
    let n = s.unicode_len();
    let mut i: usize = 0;
    while i < n
        invariant
            n == s@.len(),
            i <= n,
            forall|k: int| 0 <= k < i ==> nd_digit(#[trigger] s@[k]),
        decreases n - i,
    {
        if !is_nd_digit(s.get_char(i)) {
            return false;
        }
        i = i + 1;
    }
    true
}

/// Value of a string of decimal digits.
pub open spec fn digits_value(s: Seq<char>) -> nat
    decreases s.len(),
{
    if s.len() == 0 {
        0
    } else {
        digits_value(s.drop_last()) * 10 + digit_val(s.last())
    }
}

/// `str::parse::<u32>`: an optional `+`, then one or more ASCII digits whose
/// value fits in a `u32`.
pub open spec fn parse_u32(s: Seq<char>) -> Option<u32> {
    let d = if s.len() > 0 && s[0] == '+' {
        s.drop_first()
    } else {
        s
    };
    if d.len() > 0 && all_digits(d) && digits_value(d) <= u32::MAX {
        Some(digits_value(d) as u32)
    } else {
        None
    }
}

/// `str::parse::<u64>`, with the same grammar as [`parse_u32`].
pub open spec fn parse_u64(s: Seq<char>) -> Option<u64> {
    let d = if s.len() > 0 && s[0] == '+' {
        s.drop_first()
    } else {
        s
    };
    if d.len() > 0 && all_digits(d) && digits_value(d) <= u64::MAX {
        Some(digits_value(d) as u64)
    } else {
        None
    }
}

pub open spec fn digit_char(d: nat) -> char {
    (d + 48) as char
}

/// Decimal numeral of `n`, as `Display` writes an unsigned integer.
pub open spec fn dec(n: nat) -> Seq<char>
    decreases n,
{
    if n < 10 {
        seq![digit_char(n)]
    } else {
        dec(n / 10).push(digit_char(n % 10))
    }
}

pub proof fn lemma_digit_char(d: nat)
    requires
        d < 10,
    ensures
        is_digit(digit_char(d)),
        digit_val(digit_char(d)) == d,
{
}

pub proof fn lemma_digits_value_prefix(s: Seq<char>, k: int)
    requires
        all_digits(s),
        0 <= k <= s.len(),
    ensures
        digits_value(s.subrange(0, k)) <= digits_value(s),
    decreases s.len(),
{
    if k < s.len() {
        let t = s.drop_last();
        assert(t.subrange(0, k) =~= s.subrange(0, k));
        lemma_digits_value_prefix(t, k);
    } else {
        assert(s.subrange(0, k) =~= s);
    }
}

pub proof fn lemma_dec(n: nat)
    ensures
        dec(n).len() > 0,
        all_digits(dec(n)),
        digits_value(dec(n)) == n,
    decreases n,
{
    lemma_digit_char(n % 10);
    if n >= 10 {
        lemma_dec(n / 10);
        let s = dec(n);
        assert(s.drop_last() =~= dec(n / 10));
        assert(s.last() == digit_char(n % 10));
        assert(n == (n / 10) * 10 + n % 10);
        assert(digits_value(s) == digits_value(dec(n / 10)) * 10 + digit_val(s.last()));
        assert(digit_val(s.last()) == n % 10);
    } else {
        assert(dec(n).drop_last() =~= Seq::<char>::empty());
        assert(digits_value(Seq::<char>::empty()) == 0);
    }
}

/// The decimal numeral of a `u32` parses back to it.
pub proof fn lemma_parse_dec(n: u32)
    ensures
        parse_u32(dec(n as nat)) == Some(n),
{
    lemma_dec(n as nat);
    let s = dec(n as nat);
    assert(is_digit(s[0]));
}

/// Digits are none of the separators that ids and selectors use.
pub proof fn lemma_digit_not_sep(c: char)
    requires
        is_digit(c),
    ensures
        c != '.',
        c != '-',
        c != '@',
        c != 't',
        c != 'T',
        !is_ws(c),
{
}

/// `a.b.c` splits on `.` into its three digit strings.
pub proof fn lemma_split_three(a: Seq<char>, b: Seq<char>, c: Seq<char>)
    requires
        all_digits(a),
        all_digits(b),
        all_digits(c),
    ensures
        split_char(a + seq!['.'] + b + seq!['.'] + c, '.') == seq![a, b, c],
{
    let s = a + seq!['.'] + b + seq!['.'] + c;
    let i1 = a.len() as int;
    let i2 = (a.len() + 1 + b.len()) as int;
    assert forall|j: int| 0 <= j < i1 implies s[j] != '.' by {
        assert(s[j] == a[j]);
        lemma_digit_not_sep(a[j]);
    }
    lemma_find_from_at(s, '.', 0, i1);
    assert forall|j: int| i1 + 1 <= j < i2 implies s[j] != '.' by {
        assert(s[j] == b[j - i1 - 1]);
        lemma_digit_not_sep(b[j - i1 - 1]);
    }
    lemma_find_from_at(s, '.', i1 + 1, i2);
    assert forall|j: int| i2 + 1 <= j < s.len() implies s[j] != '.' by {
        assert(s[j] == c[j - i2 - 1]);
        lemma_digit_not_sep(c[j - i2 - 1]);
    }
    lemma_find_from_absent(s, '.', i2 + 1);
    assert(s.subrange(0, i1) =~= a);
    assert(s.subrange(i1 + 1, i2) =~= b);
    assert(s.subrange(i2 + 1, s.len() as int) =~= c);
    assert(split_from(s, '.', i2 + 1) == seq![c]);
    assert(split_from(s, '.', i1 + 1) == seq![b] + seq![c]);
    assert(split_from(s, '.', 0) == seq![a] + (seq![b] + seq![c]));
    assert(seq![a] + (seq![b] + seq![c]) =~= seq![a, b, c]);
}

fn digit_str(d: u32) -> (r: &'static str)
    requires
        d < 10,
    ensures
        r@ == seq![digit_char(d as nat)],
{
    proof {
        reveal_strlit("0");
        reveal_strlit("1");
        reveal_strlit("2");
        reveal_strlit("3");
        reveal_strlit("4");
        reveal_strlit("5");
        reveal_strlit("6");
        reveal_strlit("7");
        reveal_strlit("8");
        reveal_strlit("9");
    }
    if d == 0 {
        "0"
    } else if d == 1 {
        "1"
    } else if d == 2 {
        "2"
    } else if d == 3 {
        "3"
    } else if d == 4 {
        "4"
    } else if d == 5 {
        "5"
    } else if d == 6 {
        "6"
    } else if d == 7 {
        "7"
    } else if d == 8 {
        "8"
    } else {
        "9"
    }
}

/// Decimal numeral of a `u64`.
pub fn dec_string(n: u64) -> (r: String)
    ensures
        r@ == dec(n as nat),
    decreases n,
{
    if n < 10 {
        String::from_str(digit_str(n as u32))
    } else {
        let mut s = dec_string(n / 10);
        s.append(digit_str((n % 10) as u32));
        s
    }
}

/// `str::parse::<u32>`.
pub fn parse_u32_str(s: &str) -> (r: Option<u32>)
    ensures
        r == parse_u32(s@),
{
    let n = s.unicode_len();
    if n == 0 {
        return None;
    }
    let start: usize = if s.get_char(0) == '+' {
        1
    } else {
        0
    };
    let ghost d = if s@[0] == '+' {
        s@.drop_first()
    } else {
        s@
    };
    assert(d =~= s@.subrange(start as int, n as int));
    if start == n {
        return None;
    }
    let mut i: usize = start;
    let mut acc: u64 = 0;
    while i < n
        invariant
            n == s@.len(),
            start <= i <= n,
            start < n,
            d == s@.subrange(start as int, n as int),
            d == (if s@[0] == '+' {
                s@.drop_first()
            } else {
                s@
            }),
            all_digits(d.subrange(0, i - start)),
            acc == digits_value(d.subrange(0, i - start)),
            acc <= u32::MAX,
        decreases n - i,
    {
        let c = s.get_char(i);
        let u = c as u32;
        if u < 48 || u > 57 {
            proof {
                assert(d[i - start] == s@[i as int]);
                assert(!is_digit(d[i - start]));
                assert(!all_digits(d));
                assert(parse_u32(s@) is None);
            }
            return None;
        }
        proof {
            let k = i - start;
            assert(d.subrange(0, k + 1).drop_last() =~= d.subrange(0, k));
            assert(d.subrange(0, k + 1).last() == s@[i as int]);
        }
        acc = acc * 10 + (u - 48) as u64;
        i = i + 1;
        if acc > 0xffff_ffff {
            proof {
                let k = i - start;
                assert(acc == digits_value(d.subrange(0, k)));
                if all_digits(d) {
                    lemma_digits_value_prefix(d, k);
                }
            }
            return None;
        }
    }
    assert(d.subrange(0, n - start) =~= d);
    Some(acc as u32)
}

/// `str::parse::<u64>`.
pub fn parse_u64_str(s: &str) -> (r: Option<u64>)
    ensures
        r == parse_u64(s@),
{
    let n = s.unicode_len();
    if n == 0 {
        return None;
    }
    let start: usize = if s.get_char(0) == '+' {
        1
    } else {
        0
    };
    let ghost d = if s@[0] == '+' {
        s@.drop_first()
    } else {
        s@
    };
    assert(d =~= s@.subrange(start as int, n as int));
    if start == n {
        return None;
    }
    let mut i: usize = start;
    let mut acc: u64 = 0;
    while i < n
        invariant
            n == s@.len(),
            start <= i <= n,
            start < n,
            d == s@.subrange(start as int, n as int),
            d == (if s@[0] == '+' {
                s@.drop_first()
            } else {
                s@
            }),
            all_digits(d.subrange(0, i - start)),
            acc == digits_value(d.subrange(0, i - start)),
        decreases n - i,
    {
        let c = s.get_char(i);
        let u = c as u32;
        if u < 48 || u > 57 {
            proof {
                assert(d[i - start] == s@[i as int]);
                assert(!is_digit(d[i - start]));
                assert(!all_digits(d));
            }
            return None;
        }
        proof {
            let k = i - start;
            assert(d.subrange(0, k + 1).drop_last() =~= d.subrange(0, k));
            assert(d.subrange(0, k + 1).last() == s@[i as int]);
        }
        let dv = (u - 48) as u64;
        if acc > (u64::MAX - dv) / 10 {
            proof {
                let k = i - start;
                assert(digits_value(d.subrange(0, k + 1)) == acc * 10 + dv);
                assert(acc * 10 + dv > u64::MAX) by (nonlinear_arith)
                    requires
                        acc > (u64::MAX - dv) / 10,
                        dv <= 9,
                ;
                if all_digits(d) {
                    lemma_digits_value_prefix(d, k + 1);
                }
            }
            return None;
        }
        acc = acc * 10 + dv;
        i = i + 1;
    }
    assert(d.subrange(0, n - start) =~= d);
    Some(acc)
}

} // verus!
