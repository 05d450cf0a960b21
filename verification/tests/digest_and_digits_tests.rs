use pvm::download::DigestStream;
use pvm::error::PvmError;
use pvm::source_pbs::parse_asset;
use pvm::system::launcher_entries;
use pvm::venv::{sort_by_name, unknown_venv_meta};

const ABC: &str = "ba7816bf8f01cfea414140de5dae2223b00361a396177a9cb410ff61f20015ad";

#[test]
fn streamed_digest_is_digest_of_all_chunks() {
    let mut d = DigestStream::new();
    d.feed(b"ab");
    d.feed(b"");
    d.feed(b"c");
    assert_eq!(d.digest_hex(), ABC);
    let mut d = DigestStream::new();
    d.feed(b"abc");
    assert!(d.check(&ABC.to_uppercase()).is_ok());
    let mut d = DigestStream::new();
    d.feed(b"abd");
    match d.check(ABC) {
        Err(PvmError::Checksum { expected, actual }) => {
            assert_eq!(expected, ABC);
            assert_ne!(actual, ABC);
        }
        _ => panic!("expected a checksum error"),
    }
    assert_eq!(
        DigestStream::new().digest_hex(),
        "e3b0c44298fc1c149afbf4c8996fb92427ae41e4649b934ca495991b7852b855"
    );
}

#[test]
fn asset_date_takes_unicode_decimal_digits() {
    let name = "cpython-3.12.7+\u{0662}\u{0660}\u{0662}\u{0664}\u{0661}\u{0660}\u{0660}\u{0661}-x86_64-pc-windows-msvc-install_only.tar.gz";
    let a = parse_asset(name, Some("u"), None, None).unwrap();
    assert_eq!(a.release_date, "\u{0662}\u{0660}\u{0662}\u{0664}\u{0661}\u{0660}\u{0660}\u{0661}");
    let bad = "cpython-3.12.7+2024100x-x86_64-pc-windows-msvc-install_only.tar.gz";
    assert!(parse_asset(bad, Some("u"), None, None).is_none());
}

#[test]
fn launcher_version_takes_unicode_decimal_digits() {
    let e = launcher_entries(" -V:\u{0663}.\u{0661}\u{0662} C:\\p\\python.exe\n");
    assert_eq!(e[0].1, "\u{0663}.\u{0661}\u{0662}");
}

#[test]
fn venvs_with_equal_names_keep_their_order() {
    let mut a = unknown_venv_meta("same");
    a.python_version = "first".to_string();
    let mut b = unknown_venv_meta("same");
    b.python_version = "second".to_string();
    let c = unknown_venv_meta("alpha");
    let r = sort_by_name(vec![a, c, b]);
    let got: Vec<(&str, &str)> = r.iter().map(|m| (m.name.as_str(), m.python_version.as_str())).collect();
    assert_eq!(got, vec![("alpha", "(未知)"), ("same", "first"), ("same", "second")]);
}
