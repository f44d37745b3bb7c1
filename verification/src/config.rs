//! The program's configuration and the slot that holds it once loaded.

use vstd::prelude::*;

verus! {

/// Where the web server listens and where the caches are kept.
#[derive(Debug)]
pub struct Config {
    pub listen_on: u16,
    pub cache_dir: String,
}

/// Misuse of the configuration slot.
#[derive(Debug, Clone, Copy, PartialEq, Eq, Structural)]
pub enum ConfigError {
    /// The configuration was asked for before it was loaded.
    NotLoaded,
    /// A configuration was loaded a second time.
    AlreadyLoaded,
}

/// The slot after an attempt to load `config` into it, and the outcome:
/// an empty slot takes the configuration, a full one keeps what it holds.
pub open spec fn spec_install(slot: Option<Config>, config: Config) -> (
    Option<Config>,
    Result<(), ConfigError>,
) {
    match slot {
        None => (Some(config), Ok(())),
        Some(c) => (Some(c), Err(ConfigError::AlreadyLoaded)),
    }
}

/// What asking the slot for the configuration gives.
pub open spec fn spec_global(slot: Option<Config>) -> Result<Config, ConfigError> {
    match slot {
        Some(c) => Ok(c),
        None => Err(ConfigError::NotLoaded),
    }
}

impl Config {
    /// The loaded configuration.
    pub fn global(slot: &Option<Config>) -> (res: Result<&Config, ConfigError>)
        ensures
            match res {
                Ok(c) => spec_global(*slot) == Ok::<Config, ConfigError>(*c),
                Err(e) => spec_global(*slot) == Err::<Config, ConfigError>(e),
            },
    {
        match slot {
            Some(c) => Ok(c),
            None => Err(ConfigError::NotLoaded),
        }
    }

    /// Stores a freshly read configuration in the slot, which accepts only
    /// one.
    pub fn install(slot: &mut Option<Config>, config: Config) -> (res: Result<(), ConfigError>)
        ensures
            (*final(slot), res) == spec_install(*old(slot), config),
    {
        if slot.is_some() {
            Err(ConfigError::AlreadyLoaded)
        } else {
            *slot = Some(config);
            Ok(())
        }
    }
}

/// A loaded configuration is what the slot gives from then on, and a second
/// one is refused without replacing it.
pub proof fn lemma_install_once(first: Config, second: Config)
    ensures
        spec_install(None, first).1 is Ok,
        spec_global(spec_install(None, first).0) == Ok::<Config, ConfigError>(first),
        spec_install(spec_install(None, first).0, second) == (
            spec_install(None, first).0,
            Err::<(), ConfigError>(ConfigError::AlreadyLoaded),
        ),
{
}

} // verus!
