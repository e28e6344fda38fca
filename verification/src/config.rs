//! The configuration of the service: how it is read from named values, and
//! when it is valid.

use crate::error::{Error, ErrorView};
use crate::text::{owned, parse_u64, parse_unsigned};
use vstd::prelude::*;
use vstd::string::StringExecFns;

verus! {

/// The configuration of the service.
#[derive(Debug, Clone, PartialEq, Eq)]
pub struct Config {
    /// The port that the server listens on.
    pub port: u16,
    /// The bearer token of the metrics provider.
    pub artemis_api_key: String,
    /// The base address of the metrics provider.
    pub artemis_api_url: String,
    /// The base address of the exchange provider.
    pub coinbase_api_url: String,
    /// The directory that holds the run logs.
    pub factor_logs_dir: String,
    /// The most requests that may be in flight at once.
    pub max_concurrent_requests: usize,
    /// Seconds after which a request is given up.
    pub api_timeout_secs: u64,
    /// The level from which events are logged.
    pub log_level: String,
}

/// The values from which a configuration is read, each as the text found
/// under its name, if any.
#[derive(Debug, Clone, PartialEq, Eq)]
pub struct ConfigVars {
    /// The value of `PORT`.
    pub port: Option<String>,
    /// The value of `ARTEMIS_API_KEY`.
    pub artemis_api_key: Option<String>,
    /// The value of `ARTEMIS_API_URL`.
    pub artemis_api_url: Option<String>,
    /// The value of `COINBASE_API_URL`.
    pub coinbase_api_url: Option<String>,
    /// The value of `FACTOR_LOGS_DIR`.
    pub factor_logs_dir: Option<String>,
    /// The value of `MAX_CONCURRENT_REQUESTS`.
    pub max_concurrent_requests: Option<String>,
    /// The value of `API_TIMEOUT_SECONDS`.
    pub api_timeout_secs: Option<String>,
    /// The value of `RUST_LOG`.
    pub log_level: Option<String>,
}

/// The text of a value, or `fallback` where there is none.
pub open spec fn text_or(value: Option<String>, fallback: Seq<char>) -> Seq<char> {
    match value {
        Some(s) => s@,
        None => fallback,
    }
}

/// The number in a value, or `fallback` where there is no value or it is no
/// decimal number up to `max`.
pub open spec fn number_or(value: Option<String>, max: nat, fallback: nat) -> nat {
    match value {
        Some(s) => match parse_unsigned(s@, max) {
            Some(n) => n,
            None => fallback,
        },
        None => fallback,
    }
}

/// The port that the values give: that of `PORT`, or 8000 where `PORT` is not
/// set; `None` where `PORT` is set to something that is no port.
pub open spec fn port_of(vars: ConfigVars) -> Option<nat> {
    match vars.port {
        Some(s) => parse_unsigned(s@, u16::MAX as nat),
        None => Some(8000),
    }
}

/// What keeps the values from giving a configuration, if anything: a bad
/// port, or else a missing key.
pub open spec fn vars_fault(vars: ConfigVars) -> Option<ErrorView> {
    if port_of(vars) is None {
        Some(ErrorView::Config("Invalid PORT"@))
    } else if vars.artemis_api_key is None {
        Some(ErrorView::Config("ARTEMIS_API_KEY not set"@))
    } else {
        None
    }
}

/// Whether `config` is what the values give.
pub open spec fn config_of_vars(config: Config, vars: ConfigVars) -> bool {
    &&& port_of(vars) == Some(config.port as nat)
    &&& vars.artemis_api_key matches Some(key) && config.artemis_api_key@ == key@
    &&& config.artemis_api_url@ == text_or(vars.artemis_api_url, "https://api.artemis.xyz/v1"@)
    &&& config.coinbase_api_url@ == text_or(
        vars.coinbase_api_url,
        "https://api.exchange.coinbase.com"@,
    )
    &&& config.factor_logs_dir@ == text_or(vars.factor_logs_dir, "factor_logs"@)
    &&& config.max_concurrent_requests == number_or(
        vars.max_concurrent_requests,
        usize::MAX as nat,
        100,
    )
    &&& config.api_timeout_secs == number_or(vars.api_timeout_secs, u64::MAX as nat, 30)
    &&& config.log_level@ == text_or(vars.log_level, "info"@)
}

/// The text of a value, or `fallback` where there is none.
fn value_or(value: &Option<String>, fallback: &str) -> (r: String)
    ensures
        r@ == text_or(*value, fallback@),
{
    match value {
        Some(s) => s.clone(),
        None => owned(fallback),
    }
}

/// The number in a value, or `fallback`.
fn value_number_or(value: &Option<String>, max: u64, fallback: u64) -> (r: u64)
    requires
        fallback <= max,
    ensures
        r == number_or(*value, max as nat, fallback as nat),
        r <= max,
{
    match value {
        Some(s) => match parse_u64(s.as_str()) {
            Some(n) => if n <= max {
                n
            } else {
                fallback
            },
            None => fallback,
        },
        None => fallback,
    }
}

impl Config {
    /// What is wrong with the configuration, if anything: an empty key, or
    /// else the port 0.
    pub open spec fn fault(self) -> Option<ErrorView> {
        if self.artemis_api_key@.len() == 0 {
            Some(ErrorView::Config("ARTEMIS_API_KEY cannot be empty"@))
        } else if self.port == 0 {
            Some(ErrorView::Config("PORT must be greater than 0"@))
        } else {
            None
        }
    }

    /// Reads the configuration from the values. The port must be a port where
    /// it is set, and the key must be set; every other value has a default,
    /// which also stands in for a number that cannot be read.
    pub fn from_vars(vars: &ConfigVars) -> (r: Result<Config, Error>)
        ensures
            match r {
                Ok(config) => vars_fault(*vars) is None && config_of_vars(config, *vars),
                Err(e) => vars_fault(*vars) == Some(e@),
            },
    {
        let port: u16 = match &vars.port {
            Some(s) => match parse_u64(s.as_str()) {
                Some(n) => if n <= u16::MAX as u64 {
                    n as u16
                } else {
                    return Err(Error::Config(String::from_str("Invalid PORT")));
                },
                None => {
                    return Err(Error::Config(String::from_str("Invalid PORT")));
                },
            },
            None => 8000,
        };
        let artemis_api_key = match &vars.artemis_api_key {
            Some(key) => key.clone(),
            None => {
                return Err(Error::Config(String::from_str("ARTEMIS_API_KEY not set")));
            },
        };
        let max_concurrent_requests = value_number_or(
            &vars.max_concurrent_requests,
            usize::MAX as u64,
            100,
        ) as usize;
        Ok(
            Config {
                port,
                artemis_api_key,
                artemis_api_url: value_or(&vars.artemis_api_url, "https://api.artemis.xyz/v1"),
                coinbase_api_url: value_or(
                    &vars.coinbase_api_url,
                    "https://api.exchange.coinbase.com",
                ),
                factor_logs_dir: value_or(&vars.factor_logs_dir, "factor_logs"),
                max_concurrent_requests,
                api_timeout_secs: value_number_or(&vars.api_timeout_secs, u64::MAX, 30),
                log_level: value_or(&vars.log_level, "info"),
            },
        )
    }

    /// Checks the configuration and reports the first fault.
    pub fn validate(&self) -> (r: Result<(), Error>)
        ensures
            match r {
                Ok(_) => self.fault() is None,
                Err(e) => self.fault() == Some(e@),
            },
    {
        if self.artemis_api_key.as_str().is_empty() {
            return Err(Error::Config(String::from_str("ARTEMIS_API_KEY cannot be empty")));
        }
        if self.port == 0 {
            return Err(Error::Config(String::from_str("PORT must be greater than 0")));
        }
        Ok(())
    }
}

} // verus!
