//! Configuration of the scraper and its proxy pool, with the validation rules
//! a configuration must pass before the system starts.

use crate::error::ConfigError;
use crate::utils::{starts_with, starts_with_spec};
use vstd::prelude::*;
use vstd::string::StringExecFns;

verus! {

/// Logging configuration.
#[derive(Debug, Clone)]
pub struct LogConfig {
    pub level: String,
    pub directory: String,
    pub filename: String,
}

/// Proxy-pool configuration: where candidates come from and how the pool
/// probes, rotates and evicts them.
#[derive(Debug, Clone)]
pub struct ProxyConfig {
    pub file: String,
    pub switch_delay: u64,
    /// Failure threshold: consecutive failures before a proxy is evicted.
    pub max_retries: u32,
    pub request_timeout: u64,
    pub concurrent_validations: usize,
}

/// Whole-application configuration.
#[derive(Debug, Clone)]
pub struct Config {
    pub base_url: String,
    pub proxy_file: String,
    pub max_retries: u32,
    pub retry_delay: u64,
    pub proxy_switch_delay: u64,
    pub start_path: String,
    pub proxy_max_retries: u32,
    pub proxy_request_timeout: u64,
    pub proxy_concurrent_validations: usize,
    pub logging: LogConfig,
    pub proxy: ProxyConfig,
}

impl Config {
    /// The configuration is acceptable: the checks of `validate` all pass.
    pub open spec fn valid_spec(self, proxy_file_exists: bool) -> bool {
        &&& self.base_url@.len() > 0
        &&& starts_with_spec(self.base_url@, "http"@)
        &&& (self.proxy_file@.len() == 0 || proxy_file_exists)
        &&& self.max_retries != 0
        &&& self.retry_delay != 0
        &&& self.proxy_switch_delay != 0
        &&& self.start_path@.len() > 0
        &&& self.proxy_max_retries != 0
        &&& self.proxy_request_timeout != 0
        &&& self.proxy_concurrent_validations != 0
    }

    /// Checks the configuration, reporting the first violated rule in a
    /// fixed order. Whether the proxy file exists on disk is handed in by
    /// the caller, since this core does no I/O of its own.
    pub fn validate(&self, proxy_file_exists: bool) -> (r: Result<(), ConfigError>)
        ensures
            r is Ok <==> self.valid_spec(proxy_file_exists),
            self.base_url@.len() == 0 ==> (r matches Err(ConfigError::MissingField(m)) && m@
                == "base_url"@),
            self.base_url@.len() > 0 && !starts_with_spec(self.base_url@, "http"@) ==> (r matches Err(
                ConfigError::InvalidValue(m),
            ) && m@ == "base_url must start with http(s): "@ + self.base_url@),
            self.base_url@.len() > 0 && starts_with_spec(self.base_url@, "http"@) && (
            self.proxy_file@.len() > 0 && !proxy_file_exists) ==> (r matches Err(
                ConfigError::InvalidValue(m),
            ) && m@ == "proxy_file does not exist: "@ + self.proxy_file@),
            self.base_url@.len() > 0 && starts_with_spec(self.base_url@, "http"@) && (
            self.proxy_file@.len() == 0 || proxy_file_exists) ==> {
                let msg = if self.max_retries == 0 {
                    Some("max_retries must be greater than 0"@)
                } else if self.retry_delay == 0 {
                    Some("retry_delay must be greater than 0"@)
                } else if self.proxy_switch_delay == 0 {
                    Some("proxy_switch_delay must be greater than 0"@)
                } else if self.start_path@.len() == 0 {
                    Some("start_path cannot be empty"@)
                } else if self.proxy_max_retries == 0 {
                    Some("proxy_max_retries must be greater than 0"@)
                } else if self.proxy_request_timeout == 0 {
                    Some("proxy_request_timeout must be greater than 0"@)
                } else if self.proxy_concurrent_validations == 0 {
                    Some("proxy_concurrent_validations must be greater than 0"@)
                } else {
                    None
                };
                match msg {
                    Some(t) => r matches Err(ConfigError::InvalidValue(m)) && m@ == t,
                    None => r is Ok,
                }
            },
    {
        if self.base_url.as_str().is_empty() {
            return Err(ConfigError::MissingField("base_url".to_owned()));
        }
        if !starts_with(self.base_url.as_str(), "http") {
            return Err(
                ConfigError::InvalidValue(
                    "base_url must start with http(s): ".to_owned().concat(self.base_url.as_str()),
                ),
            );
        }
        if !self.proxy_file.as_str().is_empty() && !proxy_file_exists {
            return Err(
                ConfigError::InvalidValue(
                    "proxy_file does not exist: ".to_owned().concat(self.proxy_file.as_str()),
                ),
            );
        }
        if self.max_retries == 0 {
            return Err(
                ConfigError::InvalidValue("max_retries must be greater than 0".to_owned()),
            );
        }
        if self.retry_delay == 0 {
            return Err(
                ConfigError::InvalidValue("retry_delay must be greater than 0".to_owned()),
            );
        }
        if self.proxy_switch_delay == 0 {
            return Err(
                ConfigError::InvalidValue("proxy_switch_delay must be greater than 0".to_owned()),
            );
        }
        if self.start_path.as_str().is_empty() {
            return Err(ConfigError::InvalidValue("start_path cannot be empty".to_owned()));
        }
        if self.proxy_max_retries == 0 {
            return Err(
                ConfigError::InvalidValue("proxy_max_retries must be greater than 0".to_owned()),
            );
        }
        if self.proxy_request_timeout == 0 {
            return Err(
                ConfigError::InvalidValue(
                    "proxy_request_timeout must be greater than 0".to_owned(),
                ),
            );
        }
        if self.proxy_concurrent_validations == 0 {
            return Err(
                ConfigError::InvalidValue(
                    "proxy_concurrent_validations must be greater than 0".to_owned(),
                ),
            );
        }
        Ok(())
    }
}

pub fn default_base_url() -> (r: String)
    ensures
        r@ == "https://clutch.co"@,
{
    "https://clutch.co".to_owned()
}

pub fn default_proxy_file() -> (r: String)
    ensures
        r@ == "proxy.txt"@,
{
    "proxy.txt".to_owned()
}

pub fn default_max_retries() -> (r: u32)
    ensures
        r == 3,
{
    3
}

pub fn default_retry_delay() -> (r: u64)
    ensures
        r == 5,
{
    5
}

pub fn default_proxy_switch_delay() -> (r: u64)
    ensures
        r == 2,
{
    2
}

pub fn default_start_path() -> (r: String)
    ensures
        r@ == "/developers/rust"@,
{
    "/developers/rust".to_owned()
}

pub fn default_proxy_max_retries() -> (r: u32)
    ensures
        r == 2,
{
    2
}

pub fn default_proxy_request_timeout() -> (r: u64)
    ensures
        r == 15,
{
    15
}

pub fn default_proxy_concurrent_validations() -> (r: usize)
    ensures
        r == 5,
{
    5
}

pub fn default_log_level() -> (r: String)
    ensures
        r@ == "info"@,
{
    "info".to_owned()
}

pub fn default_log_directory() -> (r: String)
    ensures
        r@ == "logs"@,
{
    "logs".to_owned()
}

pub fn default_log_filename() -> (r: String)
    ensures
        r@ == "scraper.log"@,
{
    "scraper.log".to_owned()
}

impl Default for ProxyConfig {
    fn default() -> (r: Self)
        ensures
            r.file@ == "proxy.txt"@,
            r.switch_delay == 2,
            r.max_retries == 2,
            r.request_timeout == 15,
            r.concurrent_validations == 5,
    {
        ProxyConfig {
            file: default_proxy_file(),
            switch_delay: default_proxy_switch_delay(),
            max_retries: default_proxy_max_retries(),
            request_timeout: default_proxy_request_timeout(),
            concurrent_validations: default_proxy_concurrent_validations(),
        }
    }
}

impl Default for LogConfig {
    fn default() -> (r: Self)
        ensures
            r.level@ == "info"@,
            r.directory@ == "logs"@,
            r.filename@ == "scraper.log"@,
    {
        LogConfig {
            level: default_log_level(),
            directory: default_log_directory(),
            filename: default_log_filename(),
        }
    }
}

} // verus!
