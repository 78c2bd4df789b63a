//! Application configuration: defaults, the key set stored on disk, and how a
//! stored file (or its absence) turns into the configuration in effect.
use vstd::prelude::*;

verus! {

/// The settings CleanKakao runs with.
#[derive(Clone, Copy, Debug, PartialEq, Eq, Structural)]
pub struct Config {
    pub ad_block_banner: bool,
    pub ad_block_popup: bool,
    pub auto_start: bool,
    pub check_update: bool,
    pub poll_interval_ms: u64,
    pub startup_delay_ms: u64,
}

/// The default configuration: both kinds of ad blocking on, auto start off,
/// update checks on, one-second polling and startup delay.
pub open spec fn default_config() -> Config {
    Config {
        ad_block_banner: true,
        ad_block_popup: true,
        auto_start: false,
        check_update: true,
        poll_interval_ms: 1000,
        startup_delay_ms: 1000,
    }
}

impl Default for Config {
    fn default() -> (c: Config)
        ensures
            c == default_config(),
    {
        Config {
            ad_block_banner: true,
            ad_block_popup: true,
            auto_start: false,
            check_update: true,
            poll_interval_ms: 1000,
            startup_delay_ms: 1000,
        }
    }
}

/// The keys of a stored configuration file; a key the file does not hold is
/// `None`.
#[derive(Clone, Copy, Debug, PartialEq, Eq, Structural)]
pub struct ConfigFields {
    pub ad_block_banner: Option<bool>,
    pub ad_block_popup: Option<bool>,
    pub auto_start: Option<bool>,
    pub check_update: Option<bool>,
    pub poll_interval_ms: Option<u64>,
    pub startup_delay_ms: Option<u64>,
}

/// What was found where the configuration file is kept.
#[derive(Clone, Copy, Debug, PartialEq, Eq, Structural)]
pub enum ConfigSource {
    /// No file exists yet.
    Missing,
    /// The file exists but could not be read.
    Unreadable,
    /// The file was read but is not a valid configuration.
    Malformed,
    /// The file was read and holds these keys.
    Fields(ConfigFields),
}

pub open spec fn field_or<T>(v: Option<T>, d: T) -> T {
    match v {
        Some(x) => x,
        None => d,
    }
}

/// Stored keys completed with the default value of every missing key.
pub open spec fn merged_config(f: ConfigFields) -> Config {
    let d = default_config();
    Config {
        ad_block_banner: field_or(f.ad_block_banner, d.ad_block_banner),
        ad_block_popup: field_or(f.ad_block_popup, d.ad_block_popup),
        auto_start: field_or(f.auto_start, d.auto_start),
        check_update: field_or(f.check_update, d.check_update),
        poll_interval_ms: field_or(f.poll_interval_ms, d.poll_interval_ms),
        startup_delay_ms: field_or(f.startup_delay_ms, d.startup_delay_ms),
    }
}

/// The configuration in effect for what was found on disk.
pub open spec fn loaded_config(source: ConfigSource) -> Config {
    match source {
        ConfigSource::Fields(f) => merged_config(f),
        _ => default_config(),
    }
}

/// Every key of `c`, as written to disk.
pub open spec fn stored_fields(c: Config) -> ConfigFields {
    ConfigFields {
        ad_block_banner: Some(c.ad_block_banner),
        ad_block_popup: Some(c.ad_block_popup),
        auto_start: Some(c.auto_start),
        check_update: Some(c.check_update),
        poll_interval_ms: Some(c.poll_interval_ms),
        startup_delay_ms: Some(c.startup_delay_ms),
    }
}

/// A configuration with both kinds of ad blocking switched to `active`.
pub open spec fn with_blocking_spec(c: Config, active: bool) -> Config {
    Config { ad_block_banner: active, ad_block_popup: active, ..c }
}

impl ConfigSource {
    /// Whether the default configuration is to be written back because no
    /// file existed.
    pub fn writes_defaults(&self) -> (r: bool)
        ensures
            r == (*self is Missing),
    {
        match self {
            ConfigSource::Missing => true,
            _ => false,
        }
    }
}

impl Config {
    /// The configuration in effect for what was found on disk: a missing,
    /// unreadable or malformed file gives the defaults, and every key a file
    /// leaves out takes its default value.
    pub fn load(source: ConfigSource) -> (c: Config)
        ensures
            c == loaded_config(source),
    {
        let d = Config::default();
        match source {
            ConfigSource::Fields(f) => Config {
                ad_block_banner: match f.ad_block_banner {
                    Some(v) => v,
                    None => d.ad_block_banner,
                },
                ad_block_popup: match f.ad_block_popup {
                    Some(v) => v,
                    None => d.ad_block_popup,
                },
                auto_start: match f.auto_start {
                    Some(v) => v,
                    None => d.auto_start,
                },
                check_update: match f.check_update {
                    Some(v) => v,
                    None => d.check_update,
                },
                poll_interval_ms: match f.poll_interval_ms {
                    Some(v) => v,
                    None => d.poll_interval_ms,
                },
                startup_delay_ms: match f.startup_delay_ms {
                    Some(v) => v,
                    None => d.startup_delay_ms,
                },
            },
            _ => d,
        }
    }

    /// The keys written to disk for this configuration: all of them.
    pub fn save(&self) -> (f: ConfigFields)
        ensures
            f == stored_fields(*self),
    {
        ConfigFields {
            ad_block_banner: Some(self.ad_block_banner),
            ad_block_popup: Some(self.ad_block_popup),
            auto_start: Some(self.auto_start),
            check_update: Some(self.check_update),
            poll_interval_ms: Some(self.poll_interval_ms),
            startup_delay_ms: Some(self.startup_delay_ms),
        }
    }

    /// Whether any kind of ad blocking is switched on.
    pub fn blocking_configured(&self) -> (r: bool)
        ensures
            r == (self.ad_block_banner || self.ad_block_popup),
    {
        self.ad_block_banner || self.ad_block_popup
    }

    /// This configuration with both banner and popup blocking set to `active`.
    pub fn with_blocking(&self, active: bool) -> (c: Config)
        ensures
            c == with_blocking_spec(*self, active),
    {
        Config { ad_block_banner: active, ad_block_popup: active, ..*self }
    }
}

/// A saved configuration loads back unchanged.
pub proof fn lemma_save_load_round_trip(c: Config)
    ensures
        loaded_config(ConfigSource::Fields(stored_fields(c))) == c,
{
}

/// A missing file gives the defaults, and once those defaults are written,
/// loading again gives the same defaults.
pub proof fn lemma_missing_file_defaults(c: Config)
    requires
        c == loaded_config(ConfigSource::Missing),
    ensures
        c == default_config(),
        loaded_config(ConfigSource::Fields(stored_fields(c))) == default_config(),
{
}

/// An unreadable or malformed file falls back to the defaults.
pub proof fn lemma_bad_file_defaults(source: ConfigSource)
    requires
        source is Unreadable || source is Malformed,
    ensures
        loaded_config(source) == default_config(),
{
}

/// Every key a stored file holds is kept; every key it lacks takes its
/// default value.
pub proof fn lemma_partial_file_keys(f: ConfigFields)
    ensures
        ({
            let c = loaded_config(ConfigSource::Fields(f));
            let d = default_config();
            &&& c.ad_block_banner == (if let Some(v) = f.ad_block_banner {
                v
            } else {
                d.ad_block_banner
            })
            &&& c.ad_block_popup == (if let Some(v) = f.ad_block_popup {
                v
            } else {
                d.ad_block_popup
            })
            &&& c.auto_start == (if let Some(v) = f.auto_start {
                v
            } else {
                d.auto_start
            })
            &&& c.check_update == (if let Some(v) = f.check_update {
                v
            } else {
                d.check_update
            })
            &&& c.poll_interval_ms == (if let Some(v) = f.poll_interval_ms {
                v
            } else {
                d.poll_interval_ms
            })
            &&& c.startup_delay_ms == (if let Some(v) = f.startup_delay_ms {
                v
            } else {
                d.startup_delay_ms
            })
        }),
{
}

/// Switching blocking to `active` makes blocking configured exactly when
/// `active`, and leaves every other setting unchanged.
pub proof fn lemma_with_blocking(c: Config, active: bool)
    ensures
        ({
            let n = with_blocking_spec(c, active);
            &&& (n.ad_block_banner || n.ad_block_popup) == active
            &&& n.auto_start == c.auto_start
            &&& n.check_update == c.check_update
            &&& n.poll_interval_ms == c.poll_interval_ms
            &&& n.startup_delay_ms == c.startup_delay_ms
        }),
{
}

} // verus!
