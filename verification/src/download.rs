//! Download planning and integrity checks: the `.part` file name, splitting a
//! download into ranges for parallel fetching, reading the probe headers, and
//! SHA-256 verification. The transfers themselves are done by the caller.
use crate::error::{rv, ErrView, PvmError};
use crate::text::{cat, eq_ignore_case, eq_ignore_case_str, parse_u64, parse_u64_str};
use vstd::prelude::*;

verus! {

/// What to download and where.
pub struct DownloadOpts<'a> {
    pub url: &'a str,
    pub dest: &'a str,
    pub expect_sha256: Option<&'a str>,
    pub quiet: bool,
}

/// `dest` with one more extension: `a\b.tar.gz` becomes `a\b.tar.gz.part`.
pub fn with_added_ext(p: &str, add: &str) -> (r: String)
    ensures
        r@ == p@ + "."@ + add@,
{
    let mut s = String::from_str(p);
    s.append(".");
    s.append(add);
    s
}

// ------------------------------------------------------------------ SHA-256

/// SHA-256 digest of a byte string (FIPS 180-4), 32 bytes.
pub uninterp spec fn sha256_of(data: Seq<u8>) -> Seq<u8>;

/// Calls `sha2::Sha256::digest`; its result is the SHA-256 digest of `data`,
/// 32 bytes long. What the digest is, is not stated beyond its name.
#[verifier::external_body]
fn sha256(data: &[u8]) -> (r: Vec<u8>)
    ensures
        r@ == sha256_of(data@),
        r@.len() == 32,
{
    <sha2::Sha256 as sha2::Digest>::digest(data).to_vec()
}

/// Lowercase hexadecimal digit.
pub open spec fn hex_digit(d: nat) -> char {
    if d < 10 {
        (d + 48) as char
    } else {
        (d + 87) as char
    }
}

/// Lowercase hexadecimal text of bytes, two digits per byte, high nibble
/// first (as `hex::encode` writes it).
pub open spec fn hex_of(b: Seq<u8>) -> Seq<char>
    decreases b.len(),
{
    if b.len() == 0 {
        Seq::empty()
    } else {
        hex_of(b.drop_last()) + seq![
            hex_digit((b.last() / 16) as nat),
            hex_digit((b.last() % 16) as nat),
        ]
    }
}

fn hex_digit_str(d: u8) -> (r: &'static str)
    requires
        d < 16,
    ensures
        r@ == seq![hex_digit(d as nat)],
{
    proof {
        reveal_strlit("0");
        reveal_strlit("1");
        reveal_strlit("2");
        reveal_strlit("3");
        reveal_strlit("4");
        reveal_strlit("5");
        reveal_strlit("6");
        reveal_strlit("7");
        reveal_strlit("8");
        reveal_strlit("9");
        reveal_strlit("a");
        reveal_strlit("b");
        reveal_strlit("c");
        reveal_strlit("d");
        reveal_strlit("e");
        reveal_strlit("f");
    }
    if d == 0 {
        "0"
    } else if d == 1 {
        "1"
    } else if d == 2 {
        "2"
    } else if d == 3 {
        "3"
    } else if d == 4 {
        "4"
    } else if d == 5 {
        "5"
    } else if d == 6 {
        "6"
    } else if d == 7 {
        "7"
    } else if d == 8 {
        "8"
    } else if d == 9 {
        "9"
    } else if d == 10 {
        "a"
    } else if d == 11 {
        "b"
    } else if d == 12 {
        "c"
    } else if d == 13 {
        "d"
    } else if d == 14 {
        "e"
    } else {
        "f"
    }
}

/// Lowercase hexadecimal text of bytes.
pub fn hex_encode(b: &[u8]) -> (r: String)
    ensures
        r@ == hex_of(b@),
{
    let mut s = String::new();
    let n = b.len();
    let mut i: usize = 0;
    while i < n
        invariant
            n == b@.len(),
            i <= n,
            s@ == hex_of(b@.subrange(0, i as int)),
        decreases n - i,
    {
        let x = b[i];
        proof {
            let t = b@.subrange(0, i + 1);
            assert(t.drop_last() =~= b@.subrange(0, i as int));
            assert(t.last() == x);
        }
        s.append(hex_digit_str(x / 16));
        s.append(hex_digit_str(x % 16));
        i = i + 1;
    }
    assert(b@.subrange(0, n as int) =~= b@);
    s
}

/// The checksum outcome: a match ignoring ASCII case, or a `Checksum` error
/// that carries both digests.
pub open spec fn checksum_of(expected: Seq<char>, actual: Seq<char>) -> Result<(), ErrView> {
    if eq_ignore_case(actual, expected) {
        Ok(())
    } else {
        Err(ErrView::Checksum(expected, actual))
    }
}

/// Compares an expected and an actual hexadecimal digest.
pub fn check_checksum(expected: &str, actual: &str) -> (r: Result<(), PvmError>)
    ensures
        rv(r) == checksum_of(expected@, actual@),
{
    if eq_ignore_case_str(actual, expected) {
        Ok(())
    } else {
        Err(PvmError::Checksum { expected: String::from_str(expected), actual: String::from_str(actual) })
    }
}

/// Verifies content against an expected SHA-256 in hexadecimal.
pub fn verify_sha256_bytes(data: &[u8], want: &str) -> (r: Result<(), PvmError>)
    ensures
        rv(r) == checksum_of(want@, hex_of(sha256_of(data@))),
{
    let digest = sha256(data);
    let actual = hex_encode(digest.as_slice());
    check_checksum(want, actual.as_str())
}

// ------------------------------------------------------------------ streamed digest

/// `sha2::Sha256`, a hasher that is fed a byte stream piece by piece.
#[verifier::external_type_specification]
#[verifier::external_body]
pub struct ExSha256(sha2::Sha256);

/// The bytes a hasher has been fed so far, in order.
pub uninterp spec fn sha256_fed_of(h: sha2::Sha256) -> Seq<u8>;

/// Calls `Digest::new` on `sha2::Sha256`: a hasher fed nothing yet.
#[verifier::external_body]
fn sha256_new() -> (h: sha2::Sha256)
    ensures
        sha256_fed_of(h) == Seq::<u8>::empty(),
{
    <sha2::Sha256 as sha2::Digest>::new()
}

/// Calls `Digest::update`: the chunk is appended to what was fed.
#[verifier::external_body]
fn sha256_update(h: &mut sha2::Sha256, chunk: &[u8])
    ensures
        sha256_fed_of(*final(h)) == sha256_fed_of(*old(h)) + chunk@,
{
    <sha2::Sha256 as sha2::Digest>::update(h, chunk)
}

/// Calls `Digest::finalize`: the SHA-256 digest of everything fed, the
/// same as `Digest::digest` of those bytes in one piece.
#[verifier::external_body]
fn sha256_finish(h: sha2::Sha256) -> (d: Vec<u8>)
    ensures
        d@ == sha256_of(sha256_fed_of(h)),
        d@.len() == 32,
{
    <sha2::Sha256 as sha2::Digest>::finalize(h).to_vec()
}

/// The SHA-256 of a download as its body streams in: every chunk written to
/// the `.part` file is fed here, and the check compares the digest of all of
/// them with the expected one.
pub struct DigestStream {
    hasher: sha2::Sha256,
}

impl DigestStream {
    /// The bytes fed so far.
    pub closed spec fn fed(&self) -> Seq<u8> {
        sha256_fed_of(self.hasher)
    }

    pub fn new() -> (r: Self)
        ensures
            r.fed() == Seq::<u8>::empty(),
    {
        DigestStream { hasher: sha256_new() }
    }

    /// Feeds the next chunk of the body.
    pub fn feed(&mut self, chunk: &[u8])
        ensures
            final(self).fed() == old(self).fed() + chunk@,
    {
        sha256_update(&mut self.hasher, chunk);
    }

    /// Lowercase hex SHA-256 of everything fed.
    pub fn digest_hex(self) -> (r: String)
        ensures
            r@ == hex_of(sha256_of(self.fed())),
    {
        let d = sha256_finish(self.hasher);
        hex_encode(d.as_slice())
    }

    /// Whether everything fed has the expected digest (any case); a
    /// `Checksum` error with both digests otherwise.
    pub fn check(self, want: &str) -> (r: Result<(), PvmError>)
        ensures
            rv(r) == checksum_of(want@, hex_of(sha256_of(self.fed()))),
    {
        let actual = self.digest_hex();
        check_checksum(want, actual.as_str())
    }
}

// ------------------------------------------------------------------ probing

/// Size and range support from the `content-length` and `accept-ranges`
/// headers of a HEAD response: an unreadable length counts as 0; ranges are
/// supported when the header says `bytes` (ignoring ASCII case).
pub open spec fn probe_of(
    content_length: Option<Seq<char>>,
    accept_ranges: Option<Seq<char>>,
) -> (u64, bool) {
    let total = match content_length {
        Some(s) => match parse_u64(s) {
            Some(n) => n,
            None => 0,
        },
        None => 0,
    };
    let ranges = match accept_ranges {
        Some(s) => eq_ignore_case(s, "bytes"@),
        None => false,
    };
    (total, ranges)
}

pub open spec fn opt_str(o: Option<&str>) -> Option<Seq<char>> {
    match o {
        Some(s) => Some(s@),
        None => None,
    }
}

pub fn parse_probe(content_length: Option<&str>, accept_ranges: Option<&str>) -> (r: (u64, bool))
    ensures
        r == probe_of(opt_str(content_length), opt_str(accept_ranges)),
{
    let total = match content_length {
        Some(s) => match parse_u64_str(s) {
            Some(n) => n,
            None => 0,
        },
        None => 0,
    };
    let ranges = match accept_ranges {
        Some(s) => eq_ignore_case_str(s, "bytes"),
        None => false,
    };
    (total, ranges)
}

/// `content-length` as a number, if it is one.
pub fn content_length(header: Option<&str>) -> (r: Option<u64>)
    ensures
        r == match opt_str(header) {
            Some(s) => parse_u64(s),
            None => None,
        },
{
    match header {
        Some(s) => parse_u64_str(s),
        None => None,
    }
}

// ------------------------------------------------------------------ ranges

/// Number of download threads: the request clamped to 1..=16.
pub open spec fn thread_count_of(threads: usize) -> int {
    if threads < 1 {
        1
    } else if threads > 16 {
        16
    } else {
        threads as int
    }
}

/// A parallel download is used only when the server takes ranges, the file
/// is at least 1 MiB, and more than one thread is asked for.
pub open spec fn parallel_of(total: u64, supports_range: bool, threads: usize) -> bool {
    supports_range && total >= 0x100000 && thread_count_of(threads) > 1
}

pub fn use_parallel(total: u64, supports_range: bool, threads: usize) -> (r: bool)
    ensures
        r == parallel_of(total, supports_range, threads),
{
    let n: usize = if threads < 1 {
        1
    } else if threads > 16 {
        16
    } else {
        threads
    };
    supports_range && total >= 0x100000 && n > 1
}

/// The byte range `[start, end]` of chunk `i` out of `n`: equal chunks of
/// `total / n` bytes, the last one taking the remainder.
pub open spec fn range_of(total: u64, n: int, i: int) -> (int, int) {
    let chunk = total as int / n;
    let start = i * chunk;
    let end = if i == n - 1 {
        total - 1
    } else {
        (i + 1) * chunk - 1
    };
    (start, end)
}

/// The ranges of a parallel download, in order.
pub fn plan_ranges(total: u64, threads: usize) -> (r: Vec<(u64, u64)>)
    requires
        parallel_of(total, true, threads),
    ensures
        r@.len() == thread_count_of(threads),
        forall|i: int|
            0 <= i < r@.len() ==> (#[trigger] r@[i]).0 == range_of(total, r@.len() as int, i).0
                && r@[i].1 == range_of(total, r@.len() as int, i).1,
{
    let n: usize = if threads > 16 {
        16
    } else {
        threads
    };
    let chunk: u64 = total / (n as u64);
    assert(chunk * (n as u64) <= total) by (nonlinear_arith)
        requires
            chunk == total / (n as u64),
            n >= 1,
    ;
    let mut out: Vec<(u64, u64)> = Vec::new();
    let mut i: usize = 0;
    while i < n
        invariant
            2 <= n <= 16,
            n == thread_count_of(threads),
            chunk == total as int / n as int,
            chunk * n <= total,
            total >= 0x100000,
            i <= n,
            out@.len() == i,
            forall|k: int|
                0 <= k < i ==> (#[trigger] out@[k]).0 == range_of(total, n as int, k).0 && out@[k].1
                    == range_of(total, n as int, k).1,
        decreases n - i,
    {
        assert((i as int) * chunk <= n * chunk) by (nonlinear_arith)
            requires
                i <= n,
                chunk >= 0,
        ;
        assert((i as int + 1) * chunk <= n * chunk) by (nonlinear_arith)
            requires
                i < n,
                chunk >= 0,
        ;
        assert(chunk >= 1) by (nonlinear_arith)
            requires
                chunk == total as int / n as int,
                n <= 16,
                n >= 2,
                total >= 0x100000,
        ;
        assert((i as int + 1) * chunk >= 1) by (nonlinear_arith)
            requires
                chunk >= 1,
        ;
        let start = (i as u64) * chunk;
        let end = if i == n - 1 {
            total - 1
        } else {
            ((i as u64) + 1) * chunk - 1
        };
        out.push((start, end));
        i = i + 1;
    }
    out
}

/// The ranges of a download cover every byte once, in order: the first
/// starts at 0, each starts right after the previous one ends, none is empty,
/// and the last ends at the last byte.
pub proof fn lemma_ranges_partition(total: u64, n: int)
    requires
        2 <= n <= 16,
        total >= 0x100000,
    ensures
        range_of(total, n, 0).0 == 0,
        range_of(total, n, n - 1).1 == total - 1,
        forall|i: int|
            0 <= i < n - 1 ==> #[trigger] range_of(total, n, i + 1).0 == range_of(total, n, i).1
                + 1,
        forall|i: int|
            0 <= i < n ==> #[trigger] range_of(total, n, i).0 <= range_of(total, n, i).1,
{
    let chunk = total as int / n;
    assert(chunk >= 1 && chunk * n <= total) by (nonlinear_arith)
        requires
            chunk == total as int / n,
            2 <= n <= 16,
            total >= 0x100000,
    ;
    assert forall|i: int| 0 <= i < n implies #[trigger] range_of(total, n, i).0 <= range_of(
        total,
        n,
        i,
    ).1 by {
        assert(i * chunk + chunk <= total) by (nonlinear_arith)
            requires
                0 <= i < n,
                chunk >= 1,
                chunk * n <= total,
        ;
        assert((i + 1) * chunk == i * chunk + chunk) by (nonlinear_arith);
    }
    assert forall|i: int| 0 <= i < n - 1 implies #[trigger] range_of(total, n, i + 1).0 == range_of(
        total,
        n,
        i,
    ).1 + 1 by {
        assert((i + 1) * chunk == i * chunk + chunk) by (nonlinear_arith);
    }
}

} // verus!
