//! pvm: a Python version manager for Windows. This crate holds the verified
//! core: version identifiers and selectors, resolution of installed versions,
//! the on-disk layout, pip mirror selection and the other pure decisions that
//! the command-line and GUI front ends make.
pub mod ai;
pub mod archive;
pub mod cli;
pub mod commands;
pub mod config;
pub mod download;
pub mod error;
pub mod gui;
pub mod net;
pub mod osv;
pub mod paths;
pub mod pip;
pub mod pkg;
pub mod release;
pub mod resolve;
pub mod selfupdate;
pub mod shim;
pub mod snapshot;
pub mod source_pbs;
pub mod source_pyorg;
pub mod system;
pub mod text;
pub mod venv;
pub mod version;
pub mod winpath;
