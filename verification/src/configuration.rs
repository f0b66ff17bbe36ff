//! The settings of the controller, read from environment variables.

use crate::text::{
    all_digits, chars_of, decimal_string, decimal_value, law_parse_decimal_string, parse_u64_exec,
    parse_u64_spec, unsigned_digits,
};
use vstd::prelude::*;

verus! {

/// Configurable environmental variables
#[derive(Debug, Clone, PartialEq, Eq)]
pub struct Config {
    /// The address that the health check endpoint binds to.
    pub host: String,
    /// The port of the health check endpoint.
    pub port: String,
    /// Seconds between two cycles of the controller.
    pub polling_interval: u64,
    /// Seconds before the first cycle.
    pub startup_delay: u64,
}

/// Why the settings could not be read.
#[derive(Debug, Clone, Copy, PartialEq, Eq, Structural)]
pub enum ConfigError {
    /// `POLLING_INTERVAL` is not a number of seconds.
    InvalidPollingInterval,
    /// `STARTUP_DELAY` is not a number of seconds.
    InvalidStartupDelay,
}

/// The words that tell what went wrong for each error of the settings.
pub open spec fn config_error_text(e: ConfigError) -> Seq<char> {
    match e {
        ConfigError::InvalidPollingInterval => "Failed to parse 'POLLING_INTERVAL'"@,
        ConfigError::InvalidStartupDelay => "Failed to parse 'STARTUP_DELAY'"@,
    }
}

impl ConfigError {
    /// What went wrong, in words.
    pub fn message(&self) -> (res: &'static str)
        ensures
            res@ == config_error_text(*self),
    {
        match self {
            ConfigError::InvalidPollingInterval => "Failed to parse 'POLLING_INTERVAL'",
            ConfigError::InvalidStartupDelay => "Failed to parse 'STARTUP_DELAY'",
        }
    }
}

/// A text setting: its value where it is set, the default otherwise.
pub open spec fn text_setting(value: Option<Seq<char>>, default: Seq<char>) -> Seq<char> {
    match value {
        Some(v) => v,
        None => default,
    }
}

/// A number of seconds: the value read where the setting is set, the default otherwise;
/// `None` where a set value is not a number.
pub open spec fn seconds_setting(value: Option<Seq<char>>, default: u64) -> Option<u64> {
    match value {
        Some(v) => parse_u64_spec(v),
        None => Some(default),
    }
}

/// A set number of seconds is read as a whole: the setting `n` written in decimal gives `n`,
/// whatever the default.
pub proof fn law_seconds_setting_reads_the_whole_number(n: u64, default: u64)
    ensures
        seconds_setting(Some(decimal_string(n as nat)), default) == Some(n),
{
    law_parse_decimal_string(n);
}

/// A set number of seconds that is read is the value of all the digits of the setting (after
/// one optional `+`), and an unset one is the default.
pub proof fn law_seconds_setting_value(value: Option<Seq<char>>, default: u64, n: u64)
    requires
        seconds_setting(value, default) == Some(n),
    ensures
        match value {
            Some(v) => all_digits(unsigned_digits(v)) && decimal_value(unsigned_digits(v)) == n,
            None => n == default,
        },
{
}

/// A number of seconds from its setting.
fn seconds_from(value: &Option<String>, default: u64) -> (res: Option<u64>)
    ensures
        res == seconds_setting(
            match value {
                Some(v) => Some(v@),
                None => None,
            },
            default,
        ),
{
    match value {
        Some(v) => {
            let c = chars_of(v.as_str());
            let r = parse_u64_exec(&c, 0, c.len());
            assert(c@.subrange(0, c@.len() as int) =~= c@);
            r
        },
        None => Some(default),
    }
}

impl Config {
    /// The settings from the values of `HOST`, `PORT`, `POLLING_INTERVAL` and
    /// `STARTUP_DELAY`, `None` for one that is not set. An unset variable takes its default:
    /// `127.0.0.1`, `8080`, 30 and 30. A set number of seconds that is not a number is an
    /// error, the polling interval's first.
    pub fn from_values(
        host: Option<String>,
        port: Option<String>,
        polling_interval: Option<String>,
        startup_delay: Option<String>,
    ) -> (res: Result<Self, ConfigError>)
        ensures
            ({
                let polling = seconds_setting(
                    match polling_interval {
                        Some(v) => Some(v@),
                        None => None,
                    },
                    30,
                );
                let startup = seconds_setting(
                    match startup_delay {
                        Some(v) => Some(v@),
                        None => None,
                    },
                    30,
                );
                match res {
                    Ok(c) => {
                        &&& polling == Some(c.polling_interval)
                        &&& startup == Some(c.startup_delay)
                        &&& c.host@ == text_setting(
                            match host {
                                Some(v) => Some(v@),
                                None => None,
                            },
                            "127.0.0.1"@,
                        )
                        &&& c.port@ == text_setting(
                            match port {
                                Some(v) => Some(v@),
                                None => None,
                            },
                            "8080"@,
                        )
                    },
                    Err(ConfigError::InvalidPollingInterval) => polling is None,
                    Err(ConfigError::InvalidStartupDelay) => polling is Some && startup is None,
                }
            }),
    {
        let polling = match seconds_from(&polling_interval, 30) {
            Some(p) => p,
            None => {
                return Err(ConfigError::InvalidPollingInterval);
            },
        };
        let startup = match seconds_from(&startup_delay, 30) {
            Some(s) => s,
            None => {
                return Err(ConfigError::InvalidStartupDelay);
            },
        };
        let host = match host {
            Some(h) => h,
            None => String::from_str("127.0.0.1"),
        };
        let port = match port {
            Some(p) => p,
            None => String::from_str("8080"),
        };
        Ok(Config { host, port, polling_interval: polling, startup_delay: startup })
    }
}

} // verus!
