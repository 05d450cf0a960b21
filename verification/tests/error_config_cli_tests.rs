use pvm::cli::{FlavorArg, ScopeArg, SourceArg};
use pvm::config::Config;
use pvm::error::PvmError;
use pvm::pip::Scope;
use pvm::source_pbs::PbsFlavor;
use pvm::version::Source;

#[test]
fn exit_codes_by_kind() {
    assert_eq!(PvmError::Usage("x".into()).exit_code(), 2);
    assert_eq!(PvmError::Http("x".into()).exit_code(), 4);
    assert_eq!(PvmError::RateLimited { reset: "x".into() }.exit_code(), 4);
    assert_eq!(PvmError::Checksum { expected: "a".into(), actual: "b".into() }.exit_code(), 5);
    assert_eq!(PvmError::NotInstalled("x".into()).exit_code(), 3);
    assert_eq!(PvmError::VersionNotFound("x".into()).exit_code(), 3);
    assert_eq!(PvmError::Config("x".into()).exit_code(), 1);
    assert_eq!(PvmError::NoVersionConfigured.exit_code(), 1);
    assert_eq!(PvmError::Installer { code: 1603, log: "l".into() }.exit_code(), 1);
}

#[test]
fn default_source_of_config() {
    let mut c = Config::new();
    assert_eq!(c.default_source_resolved(), Source::Standalone);
    c.default_source = Some("cpython".to_string());
    assert_eq!(c.default_source_resolved(), Source::Org);
    c.default_source = Some("org".to_string());
    assert_eq!(c.default_source_resolved(), Source::Org);
    c.default_source = Some("conda".to_string());
    assert_eq!(c.default_source_resolved(), Source::Standalone);
    let d = Config::default();
    assert!(d.default_source.is_none() && d.pip_mirror.is_none() && !d.disable_auto_switch);
}

#[test]
fn cli_values_map() {
    assert_eq!(SourceArg::Standalone.to_source(), Source::Standalone);
    assert_eq!(SourceArg::Cpython.to_source(), Source::Org);
    assert_eq!(FlavorArg::InstallOnly.to_flavor(), PbsFlavor::InstallOnly);
    assert_eq!(FlavorArg::Stripped.to_flavor(), PbsFlavor::InstallOnlyStripped);
    assert_eq!(FlavorArg::Full.to_flavor(), PbsFlavor::PgoFull);
    assert!(matches!(ScopeArg::Global.to_scope(), Scope::Global));
    assert!(matches!(ScopeArg::Venv.to_scope(), Scope::Venv));
}
