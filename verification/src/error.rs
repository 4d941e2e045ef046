//! Error taxonomy of the pool core and its surrounding pieces.

use vstd::prelude::*;

verus! {

/// Errors detected while validating a configuration.
#[derive(Debug, PartialEq, Eq)]
pub enum ConfigError {
    MissingField(String),
    InvalidValue(String),
}

/// Errors surfaced by the HTTP client layer.
#[derive(Debug, PartialEq, Eq)]
pub enum ClientError {
    BuildError(String),
    RequestFailed(String),
    ResponseError { status_code: u16, message: String },
    InvalidUrl(String),
}

/// Errors surfaced by the proxy pool.
#[derive(Debug, PartialEq, Eq)]
pub enum ProxyError {
    /// No proxy ever passed validation, or the pool is empty with nothing evicted.
    NoWorkingProxies,
    /// The pool had working proxies once, but every one of them has been evicted.
    AllProxiesExhausted { failed_proxies: Vec<(String, String)> },
    /// A single validation probe failed.
    ValidationFailed(String),
    /// A single validation probe timed out.
    TimeoutError(String),
}

/// Errors surfaced by page analysis.
#[derive(Debug, PartialEq, Eq)]
pub enum ScraperError {
    ParseError(String),
    SelectorError(String),
}

} // verus!
