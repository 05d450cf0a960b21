use pvm::download::{
    check_checksum, content_length, hex_encode, parse_probe, plan_ranges, use_parallel,
    verify_sha256_bytes, with_added_ext,
};
use pvm::error::PvmError;

#[test]
fn part_file_name() {
    assert_eq!(with_added_ext("C:\\c\\a.tar.gz", "part"), "C:\\c\\a.tar.gz.part");
}

#[test]
fn hex_is_lowercase_two_digits() {
    assert_eq!(hex_encode(&[0x00, 0x0f, 0xab, 0xff]), "000fabff");
    assert_eq!(hex_encode(&[]), "");
}

#[test]
fn sha256_of_abc() {
    let want = "ba7816bf8f01cfea414140de5dae2223b00361a396177a9cb410ff61f20015ad";
    assert!(verify_sha256_bytes(b"abc", want).is_ok());
    assert!(verify_sha256_bytes(b"abc", &want.to_uppercase()).is_ok());
    match verify_sha256_bytes(b"abd", want) {
        Err(PvmError::Checksum { expected, actual }) => {
            assert_eq!(expected, want);
            assert_ne!(actual, want);
            assert_eq!(actual.len(), 64);
        }
        _ => panic!("expected a checksum error"),
    }
}

#[test]
fn checksum_ignores_case() {
    assert!(check_checksum("ABCD", "abcd").is_ok());
    assert!(matches!(check_checksum("abcd", "abce"), Err(PvmError::Checksum { .. })));
}

#[test]
fn probe_headers() {
    assert_eq!(parse_probe(Some("1048576"), Some("Bytes")), (1048576, true));
    assert_eq!(parse_probe(Some("x"), Some("none")), (0, false));
    assert_eq!(parse_probe(None, None), (0, false));
    assert_eq!(content_length(Some("42")), Some(42));
    assert_eq!(content_length(Some("-1")), None);
}

#[test]
fn parallel_needs_ranges_size_and_threads() {
    assert!(use_parallel(2 << 20, true, 8));
    assert!(!use_parallel(2 << 20, false, 8));
    assert!(!use_parallel(1000, true, 8));
    assert!(!use_parallel(2 << 20, true, 1));
    assert!(!use_parallel(2 << 20, true, 0));
}

#[test]
fn ranges_cover_every_byte_once() {
    let total: u64 = 10 * 1024 * 1024 + 7;
    let r = plan_ranges(total, 4);
    assert_eq!(r.len(), 4);
    assert_eq!(r[0].0, 0);
    assert_eq!(r[3].1, total - 1);
    for i in 0..3 {
        assert_eq!(r[i + 1].0, r[i].1 + 1);
    }
    assert_eq!(r[0], (0, total / 4 - 1));
    let r = plan_ranges(total, 64);
    assert_eq!(r.len(), 16);
}
