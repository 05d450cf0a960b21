//! Settings from `config.toml`. The global version is not kept here: the
//! `version` file under the root is its only record.
use crate::version::Source;
use vstd::prelude::*;

verus! {

pub struct Config {
    /// `standalone` or `cpython`; anything else, or nothing, means standalone.
    pub default_source: Option<String>,
    /// Alias of the default pip mirror.
    pub pip_mirror: Option<String>,
    /// Turns off switching by `.python-version` files.
    pub disable_auto_switch: bool,
}

/// The default source that a configuration names.
pub open spec fn default_source_of(c: Option<Seq<char>>) -> Source {
    match c {
        Some(s) => match Source::parse_cli(s) {
            Some(x) => x,
            None => Source::Standalone,
        },
        None => Source::Standalone,
    }
}

impl Config {
    /// An empty configuration (every setting at its default).
    pub fn new() -> (r: Self)
        ensures
            r.default_source is None,
            r.pip_mirror is None,
            !r.disable_auto_switch,
    {
        Config { default_source: None, pip_mirror: None, disable_auto_switch: false }
    }

    pub fn default_source_resolved(&self) -> (r: Source)
        ensures
            r == default_source_of(
                match &self.default_source {
                    Some(s) => Some(s@),
                    None => None,
                },
            ),
    {
        match &self.default_source {
            Some(s) => match Source::from_cli(s.as_str()) {
                Some(x) => x,
                None => Source::Standalone,
            },
            None => Source::Standalone,
        }
    }
}

impl Default for Config {
    fn default() -> (r: Self)
        ensures
            r.default_source is None,
            r.pip_mirror is None,
            !r.disable_auto_switch,
    {
        Config::new()
    }
}

} // verus!
