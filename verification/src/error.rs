//! The library's error type: one variant per kind of failure, each with the
//! process exit code that the command line reports for it.
use vstd::prelude::*;

verus! {

/// `std::io::Error`, carried through unchanged from the I/O layer.
#[verifier::external_type_specification]
#[verifier::external_body]
pub struct ExIoError(std::io::Error);

#[derive(Debug)]
pub enum PvmError {
    Io(std::io::Error),
    Http(String),
    RateLimited { reset: String },
    Archive(String),
    Checksum { expected: String, actual: String },
    VersionNotFound(String),
    NotInstalled(String),
    Ambiguous(String),
    Config(String),
    NoVersionConfigured,
    Installer { code: i32, log: String },
    Win(String),
    Usage(String),
}

/// What an error says: its kind and the text that it carries.
pub enum ErrView {
    Io,
    Http(Seq<char>),
    RateLimited(Seq<char>),
    Archive(Seq<char>),
    Checksum(Seq<char>, Seq<char>),
    VersionNotFound(Seq<char>),
    NotInstalled(Seq<char>),
    Ambiguous(Seq<char>),
    Config(Seq<char>),
    NoVersionConfigured,
    Installer(i32, Seq<char>),
    Win(Seq<char>),
    Usage(Seq<char>),
}

impl View for PvmError {
    type V = ErrView;

    open spec fn view(&self) -> ErrView {
        match self {
            PvmError::Io(_) => ErrView::Io,
            PvmError::Http(s) => ErrView::Http(s@),
            PvmError::RateLimited { reset } => ErrView::RateLimited(reset@),
            PvmError::Archive(s) => ErrView::Archive(s@),
            PvmError::Checksum { expected, actual } => ErrView::Checksum(expected@, actual@),
            PvmError::VersionNotFound(s) => ErrView::VersionNotFound(s@),
            PvmError::NotInstalled(s) => ErrView::NotInstalled(s@),
            PvmError::Ambiguous(s) => ErrView::Ambiguous(s@),
            PvmError::Config(s) => ErrView::Config(s@),
            PvmError::NoVersionConfigured => ErrView::NoVersionConfigured,
            PvmError::Installer { code, log } => ErrView::Installer(*code, log@),
            PvmError::Win(s) => ErrView::Win(s@),
            PvmError::Usage(s) => ErrView::Usage(s@),
        }
    }
}

/// A result with its error seen through [`ErrView`].
pub open spec fn rv<T>(r: Result<T, PvmError>) -> Result<T, ErrView> {
    match r {
        Ok(t) => Ok(t),
        Err(e) => Err(e@),
    }
}

/// Exit code of the process for an error: 2 for usage errors, 4 for network
/// failures and rate limiting, 5 for checksum mismatches, 3 for versions not
/// installed or not found, 1 otherwise.
pub open spec fn exit_code_of(e: ErrView) -> i32 {
    match e {
        ErrView::Usage(_) => 2,
        ErrView::Http(_) | ErrView::RateLimited(_) => 4,
        ErrView::Checksum(_, _) => 5,
        ErrView::NotInstalled(_) | ErrView::VersionNotFound(_) => 3,
        _ => 1,
    }
}

impl PvmError {
    pub fn exit_code(&self) -> (r: i32)
        ensures
            r == exit_code_of(self@),
    {
        match self {
            PvmError::Usage(_) => 2,
            PvmError::Http(_) | PvmError::RateLimited { .. } => 4,
            PvmError::Checksum { .. } => 5,
            PvmError::NotInstalled(_) | PvmError::VersionNotFound(_) => 3,
            _ => 1,
        }
    }
}

} // verus!
