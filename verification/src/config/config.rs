//! What `.sandbox/config.toml` holds.

use vstd::prelude::*;

verus! {

/// The configuration: lists of glob patterns, and where and how much to log.
///
/// The lists are taken in order: what the blacklist matches is the sandbox's own,
/// then what the whitelist matches passes through to the host, and everything else
/// is copied on write.  Accesses of the last kind are logged, unless `disable_log`
/// matches.  The project's own directory counts as whitelisted unless it is
/// blacklisted, and `.sandbox` counts as blacklisted unless it is whitelisted.
#[derive(Debug)]
pub struct Config {
    pub whitelist: Vec<String>,
    pub blacklist: Vec<String>,
    pub disable_log: Vec<String>,
    pub log_level: Option<String>,
    pub log: Option<String>,
}

/// How much is logged.
#[derive(Debug, Clone, Copy, PartialEq, Eq, Structural)]
pub enum LevelFilter {
    Off,
    Error,
    Warn,
    Info,
    Debug,
    Trace,
}

/// The level that a text names; `Info` for any other text and for none.
pub open spec fn level_named(text: Option<Seq<char>>) -> LevelFilter {
    if text == Some("error"@) {
        LevelFilter::Error
    } else if text == Some("warn"@) {
        LevelFilter::Warn
    } else if text == Some("debug"@) {
        LevelFilter::Debug
    } else if text == Some("trace"@) {
        LevelFilter::Trace
    } else {
        LevelFilter::Info
    }
}

/// The characters of an optional string.
pub open spec fn opt_chars(o: Option<String>) -> Option<Seq<char>> {
    match o {
        Some(s) => Some(s@),
        None => None,
    }
}

impl Config {
    /// How much is logged; `Info` where nothing or nothing known is configured.
    pub fn log_level_filter(&self) -> (r: LevelFilter)
        ensures
            r == level_named(opt_chars(self.log_level)),
    {
        match &self.log_level {
            Some(text) => {
                proof {
                    reveal_strlit("error");
                    reveal_strlit("warn");
                    reveal_strlit("info");
                    reveal_strlit("debug");
                    reveal_strlit("trace");
                    assert("info"@[0] == 'i' && "warn"@[0] == 'w');
                    assert("info"@.len() == 4 && "error"@.len() == 5 && "debug"@.len() == 5
                        && "trace"@.len() == 5);
                }
                if *text == String::from_str("error") {
                    LevelFilter::Error
                } else if *text == String::from_str("warn") {
                    LevelFilter::Warn
                } else if *text == String::from_str("info") {
                    LevelFilter::Info
                } else if *text == String::from_str("debug") {
                    LevelFilter::Debug
                } else if *text == String::from_str("trace") {
                    LevelFilter::Trace
                } else {
                    LevelFilter::Info
                }
            },
            None => LevelFilter::Info,
        }
    }
}

/// How much is logged and where to.
pub open spec fn log_data_of(config: Option<Config>) -> (LevelFilter, Option<String>) {
    match config {
        Some(c) => (level_named(opt_chars(c.log_level)), c.log),
        None => (LevelFilter::Info, None),
    }
}

/// How much is logged and where to, given the configuration where it could be read.
pub fn log_data_from_config(config: Option<Config>) -> (r: (LevelFilter, Option<String>))
    ensures
        r == log_data_of(config),
{
    match config {
        Some(c) => {
            let level = c.log_level_filter();
            (level, c.log)
        },
        None => (LevelFilter::Info, None),
    }
}

} // verus!
