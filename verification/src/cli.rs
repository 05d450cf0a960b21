//! The command line as data: global options, subcommands and their
//! arguments. The argument parser in the front end fills these in.
use crate::pip::Scope;
use crate::source_pbs::PbsFlavor;
use crate::version::Source;
use vstd::prelude::*;

verus! {

pub struct Cli {
    /// Root directory override (`--root` or `PVM_ROOT`).
    pub root: Option<String>,
    /// Log verbosity (repeatable `-v`).
    pub verbose: u8,
    /// Errors only.
    pub quiet: bool,
    /// Structured output where supported.
    pub json: bool,
    /// Skip confirmations.
    pub yes: bool,
    pub command: Command,
}

/// `--source`: `standalone` or `cpython` (python.org).
#[derive(Clone, Copy, PartialEq, Eq, Debug, Structural)]
pub enum SourceArg {
    Standalone,
    Cpython,
}

/// `--flavor`: `install_only`, `stripped` or `full`.
#[derive(Clone, Copy, PartialEq, Eq, Debug, Structural)]
pub enum FlavorArg {
    InstallOnly,
    Stripped,
    Full,
}

/// `--scope`: `global` or `venv`.
#[derive(Clone, Copy, PartialEq, Eq, Debug, Structural)]
pub enum ScopeArg {
    Global,
    Venv,
}

impl SourceArg {
    pub fn to_source(self) -> (r: Source)
        ensures
            r == (match self {
                SourceArg::Standalone => Source::Standalone,
                SourceArg::Cpython => Source::Org,
            }),
    {
        match self {
            SourceArg::Standalone => Source::Standalone,
            SourceArg::Cpython => Source::Org,
        }
    }
}

impl FlavorArg {
    pub fn to_flavor(self) -> (r: PbsFlavor)
        ensures
            r == (match self {
                FlavorArg::InstallOnly => PbsFlavor::InstallOnly,
                FlavorArg::Stripped => PbsFlavor::InstallOnlyStripped,
                FlavorArg::Full => PbsFlavor::PgoFull,
            }),
    {
        match self {
            FlavorArg::InstallOnly => PbsFlavor::InstallOnly,
            FlavorArg::Stripped => PbsFlavor::InstallOnlyStripped,
            FlavorArg::Full => PbsFlavor::PgoFull,
        }
    }
}

impl ScopeArg {
    pub fn to_scope(self) -> (r: Scope)
        ensures
            r == (match self {
                ScopeArg::Global => Scope::Global,
                ScopeArg::Venv => Scope::Venv,
            }),
    {
        match self {
            ScopeArg::Global => Scope::Global,
            ScopeArg::Venv => Scope::Venv,
        }
    }
}

#[allow(inconsistent_fields)]
pub enum Command {
    /// Install one or more versions.
    Install {
        versions: Vec<String>,
        source: Option<SourceArg>,
        flavor: FlavorArg,
        freethreaded: bool,
        force: bool,
        skip_existing: bool,
        set_global: bool,
        skip_checksum: bool,
        mirror: Option<String>,
    },
    /// Uninstall versions.
    Uninstall { versions: Vec<String>, keep_venvs: bool },
    /// List installed versions (or remote ones with `remote`).
    List { remote: bool, source: Option<SourceArg>, bare: bool, all: bool },
    /// List installable versions.
    LsRemote { source: Option<SourceArg>, all: bool, refresh: bool },
    /// Show or set the global default version.
    Global { version: Option<String> },
    /// Show or set the `.python-version` of the working directory.
    Local { version: Option<String>, unset: bool },
    /// Show how to set `PVM_VERSION` for the session.
    Shell { version: Option<String>, unset: bool },
    /// Print the real executable that a shim resolves to.
    Which { exe: Option<String> },
    /// Print the effective version and where it comes from.
    Current,
    /// Run a command with a chosen or the effective version.
    Exec { version: Option<String>, cmd: Vec<String> },
    /// Virtual environments.
    Venv { cmd: VenvCmd },
    /// pip mirror settings.
    PipMirror { cmd: MirrorCmd },
    /// Create the directories, install the shims, put them on `Path`.
    Init { path_only: bool },
    /// Rebuild the shims.
    Rehash,
    /// Diagnose the environment.
    Doctor,
    /// Print the root directory.
    Root,
}

pub enum VenvCmd {
    Create {
        name: String,
        python: Option<String>,
        in_project: bool,
        path: Option<String>,
        clear: bool,
        without_pip: bool,
        system_site_packages: bool,
        mirror: Option<String>,
    },
    List,
    Remove { name: String },
    Path { name: String },
    Which { name: String },
    Activate { name: String },
}

pub enum MirrorCmd {
    Assign { name_or_url: String, scope: ScopeArg, no_trusted_host: bool },
    Show { scope: ScopeArg },
    List,
    Reset { scope: ScopeArg },
}

} // verus!
