//! The display options of one invocation and the descriptors of its inputs.

use vstd::prelude::*;

verus! {

/// The display options. Every option is off by default.
#[derive(Clone, Copy, Debug, PartialEq, Eq, Structural)]
pub struct Config {
    /// Prefix every output line with its line number.
    pub number_all: bool,
    /// Prefix only non-empty output lines with a line number. Takes
    /// precedence over `number_all`.
    pub number_nonblank: bool,
    /// Show every horizontal tab as `^I`.
    pub show_tabs: bool,
    /// Put `$` before the terminator of every output line.
    pub show_ends: bool,
    /// Collapse every run of empty lines into a single empty line.
    pub squeeze_blank: bool,
}

impl Config {
    /// The configuration with every option off.
    pub open spec fn plain() -> Config {
        Config {
            number_all: false,
            number_nonblank: false,
            show_tabs: false,
            show_ends: false,
            squeeze_blank: false,
        }
    }

    /// Creates the configuration with every option off.
    pub fn new() -> (config: Config)
        ensures
            config == Config::plain(),
    {
        Config {
            number_all: false,
            number_nonblank: false,
            show_tabs: false,
            show_ends: false,
            squeeze_blank: false,
        }
    }
}

impl Default for Config {
    fn default() -> (config: Config)
        ensures
            config == Config::plain(),
    {
        Config::new()
    }
}

/// Where one input comes from.
#[derive(Clone, Debug, PartialEq, Eq)]
pub enum Source {
    /// The standard input stream.
    Stdin,
    /// The file at the given path.
    Path(String),
}

} // verus!
