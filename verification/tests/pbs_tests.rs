use pvm::archive::ArchiveKind;
use pvm::net::FetchStep;
use pvm::paths::Paths;
use pvm::release::ReleaseVersion;
use pvm::source_pbs::{
    archive_kind, assets_of_release, filter_assets, index_cache_file, page_fetch_step, parse_asset,
    releases_page_url, staging_dirs, unpacked_interpreter, PbsAsset, PbsFlavor,
};
use pvm::version::{PythonVersion, Source};

const NAME: &str = "cpython-3.12.7+20241016-x86_64-pc-windows-msvc-install_only.tar.gz";

#[test]
fn parses_an_install_only_asset() {
    let a = parse_asset(NAME, Some("https://dl/x"), Some(123), Some("sha256:abcd")).unwrap();
    assert_eq!(a.python_version, ReleaseVersion { major: 3, minor: 12, patch: 7 });
    assert_eq!(a.release_date, "20241016");
    assert!(!a.freethreaded);
    assert_eq!(a.flavor, PbsFlavor::InstallOnly);
    assert_eq!(a.download_url, "https://dl/x");
    assert_eq!(a.size, 123);
    assert_eq!(a.sha256.as_deref(), Some("abcd"));
    assert_eq!(a.file_name, NAME);
}

#[test]
fn asset_flavors_and_threading() {
    let n = "cpython-3.13.1+20250115-x86_64-pc-windows-msvc-freethreaded+pgo-full.tar.zst";
    let a = parse_asset(n, Some("u"), None, Some("md5:x")).unwrap();
    assert_eq!(a.flavor, PbsFlavor::PgoFull);
    assert!(a.freethreaded);
    assert_eq!(a.size, 0);
    assert_eq!(a.sha256, None);
    let n = "cpython-3.13.1+20250115-x86_64-pc-windows-msvc-freethreaded+pgo-install_only_stripped.tar.gz";
    assert_eq!(parse_asset(n, Some("u"), None, None).unwrap().flavor, PbsFlavor::InstallOnlyStripped);
}

#[test]
fn refused_asset_names() {
    assert!(parse_asset(NAME, None, None, None).is_none());
    assert!(parse_asset("cpython-3.12.7+20241016-x86_64-unknown-linux-gnu-install_only.tar.gz", Some("u"), None, None).is_none());
    assert!(parse_asset("cpython-3.12.07+20241016-x86_64-pc-windows-msvc-install_only.tar.gz", Some("u"), None, None).is_none());
    assert!(parse_asset("cpython-3.12.7+2024101-x86_64-pc-windows-msvc-install_only.tar.gz", Some("u"), None, None).is_none());
    assert!(parse_asset("cpython-3.12.7+20241016-x86_64-pc-windows-msvc-debug.tar.gz", Some("u"), None, None).is_none());
    assert!(parse_asset("cpython-3.12.7+20241016-x86_64-pc-windows-msvc-install_only.zip", Some("u"), None, None).is_none());
    assert!(parse_asset("cpython-3.12.7+20241016-x86_64-pc-windows-msvc-.tar.gz", Some("u"), None, None).is_none());
}

fn asset(ver: (u64, u64, u64), date: &str, ft: bool, flavor: PbsFlavor, url: &str) -> PbsAsset {
    PbsAsset {
        python_version: ReleaseVersion { major: ver.0, minor: ver.1, patch: ver.2 },
        release_date: date.to_string(),
        freethreaded: ft,
        flavor,
        download_url: url.to_string(),
        size: 1,
        sha256: None,
        file_name: String::new(),
    }
}

#[test]
fn listing_keeps_newest_build_per_release() {
    let all = vec![
        asset((3, 12, 7), "20241001", false, PbsFlavor::InstallOnly, "a"),
        asset((3, 13, 0), "20241001", false, PbsFlavor::InstallOnly, "b"),
        asset((3, 12, 7), "20241016", false, PbsFlavor::InstallOnly, "c"),
        asset((3, 12, 7), "20241101", true, PbsFlavor::InstallOnly, "d"),
        asset((3, 12, 7), "20241101", false, PbsFlavor::PgoFull, "e"),
        asset((3, 11, 9), "20241016", false, PbsFlavor::InstallOnly, "f"),
        asset((3, 11, 9), "20241016", false, PbsFlavor::InstallOnly, "g"),
    ];
    let r = filter_assets(all, PbsFlavor::InstallOnly, false);
    let urls: Vec<&str> = r.iter().map(|a| a.download_url.as_str()).collect();
    assert_eq!(urls, vec!["b", "c", "f"]);
}

#[test]
fn assets_of_a_release_in_order() {
    let entries = vec![
        (NAME.to_string(), Some("u1".to_string()), Some(5), None),
        ("SHA256SUMS".to_string(), Some("u2".to_string()), None, None),
        (NAME.replace("3.12.7", "3.12.8"), Some("u3".to_string()), None, None),
    ];
    let r = assets_of_release(&entries);
    assert_eq!(r.len(), 2);
    assert_eq!(r[0].download_url, "u1");
    assert_eq!(r[1].python_version, ReleaseVersion { major: 3, minor: 12, patch: 8 });
}

#[test]
fn listing_urls_and_places() {
    assert_eq!(
        releases_page_url(2),
        "https://api.github.com/repos/astral-sh/python-build-standalone/releases?per_page=100&page=2"
    );
    let p = Paths { root: "C:\\pvm".to_string() };
    assert_eq!(index_cache_file(&p), "C:\\pvm\\cache\\pbs-index.json");
    let v = PythonVersion { source: Source::Standalone, major: 3, minor: 12, patch: 7, freethreaded: false };
    let (a, b) = staging_dirs(&p, &v);
    assert_eq!(a, "C:\\pvm\\versions\\.tmp-cpython-3.12.7-standalone");
    assert_eq!(b, "C:\\pvm\\versions\\.tmp2-cpython-3.12.7-standalone");
    assert_eq!(unpacked_interpreter("T", PbsFlavor::PgoFull), "T\\python\\install\\python.exe");
    assert_eq!(unpacked_interpreter("T", PbsFlavor::InstallOnly), "T\\python\\python.exe");
    assert_eq!(archive_kind(PbsFlavor::PgoFull), ArchiveKind::TarZst);
    assert_eq!(archive_kind(PbsFlavor::InstallOnlyStripped), ArchiveKind::TarGz);
    assert_eq!(PbsFlavor::InstallOnly.suffix(), "install_only.tar.gz");
    assert!(PbsFlavor::PgoFull.is_zstd());
    assert!(!PbsFlavor::InstallOnly.is_zstd());
}

#[test]
fn fetch_steps() {
    assert_eq!(page_fetch_step("http status: 403", 0), FetchStep::RateLimited);
    assert_eq!(page_fetch_step("API RATE limit exceeded", 2), FetchStep::RateLimited);
    assert_eq!(page_fetch_step("http status: 502", 0), FetchStep::Retry(500));
    assert_eq!(page_fetch_step("Connection Timed Out", 2), FetchStep::Retry(1500));
    assert_eq!(page_fetch_step("timeout", 3), FetchStep::GiveUp);
    assert_eq!(page_fetch_step("dns error", 0), FetchStep::GiveUp);
}
