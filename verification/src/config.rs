//! The user's configuration, as far as it was given.

use vstd::prelude::*;

verus! {

/// The configuration.
#[derive(Debug)]
pub struct Config {
    pub focus: FocusConfig,
}

/// How the focus is sampled.
#[derive(Debug)]
pub struct FocusConfig {
    pub sample_interval_ms: u64,
}

impl Default for FocusConfig {
    fn default() -> (r: Self)
        ensures
            r.sample_interval_ms == 300,
    {
        FocusConfig { sample_interval_ms: 300 }
    }
}

impl Default for Config {
    fn default() -> (r: Self)
        ensures
            r.focus.sample_interval_ms == 300,
    {
        Config { focus: FocusConfig::default() }
    }
}

/// The interval that is used: the default where none was read; an interval
/// of zero is raised.
pub open spec fn interval_used(read: Option<Config>) -> u64 {
    match read {
        None => 300,
        Some(c) => if c.focus.sample_interval_ms == 0 {
            50
        } else {
            c.focus.sample_interval_ms
        },
    }
}

/// The configuration that is used: the default where none could be read. An
/// interval of zero, which no timer takes, is raised.
pub fn load(read: Option<Config>) -> (r: Config)
    ensures
        r.focus.sample_interval_ms == interval_used(read),
{
    let mut cfg = match read {
        Some(c) => c,
        None => Config::default(),
    };
    if cfg.focus.sample_interval_ms == 0 {
        cfg.focus.sample_interval_ms = 50;
    }
    cfg
}

/// The interval that is used is never zero, whatever was configured.
pub proof fn law_interval_is_positive(read: Option<Config>)
    ensures
        interval_used(read) > 0,
{
}

} // verus!
