use proxy_pool::config::{
    default_base_url, default_log_directory, default_log_filename, default_log_level,
    default_max_retries, default_proxy_concurrent_validations, default_proxy_file,
    default_proxy_max_retries, default_proxy_request_timeout, default_proxy_switch_delay,
    default_retry_delay, default_start_path, Config, LogConfig, ProxyConfig,
};
use proxy_pool::error::{ConfigError, ScraperError};
use proxy_pool::logging::{parse_log_level, LogLevel};
use proxy_pool::page::{render_usize, PageDoc, PageScraper};
use proxy_pool::stats::ProxyStats;
use proxy_pool::utils::{extract_page_number, parse_usize, starts_with, trim};

fn valid_config() -> Config {
    Config {
        base_url: default_base_url(),
        proxy_file: String::new(),
        max_retries: default_max_retries(),
        retry_delay: default_retry_delay(),
        proxy_switch_delay: default_proxy_switch_delay(),
        start_path: default_start_path(),
        proxy_max_retries: default_proxy_max_retries(),
        proxy_request_timeout: default_proxy_request_timeout(),
        proxy_concurrent_validations: default_proxy_concurrent_validations(),
        logging: LogConfig::default(),
        proxy: ProxyConfig::default(),
    }
}

#[test]
fn defaults_have_the_documented_values() {
    assert_eq!(default_base_url(), "https://clutch.co");
    assert_eq!(default_proxy_file(), "proxy.txt");
    assert_eq!(default_max_retries(), 3);
    assert_eq!(default_retry_delay(), 5);
    assert_eq!(default_proxy_switch_delay(), 2);
    assert_eq!(default_start_path(), "/developers/rust");
    assert_eq!(default_proxy_max_retries(), 2);
    assert_eq!(default_proxy_request_timeout(), 15);
    assert_eq!(default_proxy_concurrent_validations(), 5);
    assert_eq!(default_log_level(), "info");
    assert_eq!(default_log_directory(), "logs");
    assert_eq!(default_log_filename(), "scraper.log");
    let p = ProxyConfig::default();
    assert_eq!(p.max_retries, 2);
    assert_eq!(p.concurrent_validations, 5);
    let l = LogConfig::default();
    assert_eq!(l.level, "info");
}

#[test]
fn a_valid_config_passes() {
    assert!(valid_config().validate(false).is_ok());
}

#[test]
fn empty_base_url_is_a_missing_field() {
    let mut c = valid_config();
    c.base_url = String::new();
    match c.validate(true) {
        Err(ConfigError::MissingField(m)) => assert_eq!(m, "base_url"),
        other => panic!("expected MissingField, got {other:?}"),
    }
}

#[test]
fn base_url_must_start_with_http() {
    let mut c = valid_config();
    c.base_url = "ftp://example.org".to_string();
    match c.validate(true) {
        Err(ConfigError::InvalidValue(m)) => {
            assert_eq!(m, "base_url must start with http(s): ftp://example.org")
        }
        other => panic!("expected InvalidValue, got {other:?}"),
    }
}

#[test]
fn missing_proxy_file_is_rejected() {
    let mut c = valid_config();
    c.proxy_file = "proxies.txt".to_string();
    match c.validate(false) {
        Err(ConfigError::InvalidValue(m)) => {
            assert_eq!(m, "proxy_file does not exist: proxies.txt")
        }
        other => panic!("expected InvalidValue, got {other:?}"),
    }
    assert!(c.validate(true).is_ok());
}

#[test]
fn zero_valued_settings_are_rejected_in_order() {
    let cases: [(fn(&mut Config), &str); 7] = [
        (|c| c.max_retries = 0, "max_retries must be greater than 0"),
        (|c| c.retry_delay = 0, "retry_delay must be greater than 0"),
        (|c| c.proxy_switch_delay = 0, "proxy_switch_delay must be greater than 0"),
        (|c| c.start_path = String::new(), "start_path cannot be empty"),
        (|c| c.proxy_max_retries = 0, "proxy_max_retries must be greater than 0"),
        (|c| c.proxy_request_timeout = 0, "proxy_request_timeout must be greater than 0"),
        (
            |c| c.proxy_concurrent_validations = 0,
            "proxy_concurrent_validations must be greater than 0",
        ),
    ];
    for (mutate, expected) in cases {
        let mut c = valid_config();
        mutate(&mut c);
        match c.validate(true) {
            Err(ConfigError::InvalidValue(m)) => assert_eq!(m, expected),
            other => panic!("expected InvalidValue({expected}), got {other:?}"),
        }
    }
}

#[test]
fn log_levels_parse_case_insensitively() {
    assert_eq!(parse_log_level("trace").unwrap(), LogLevel::Trace);
    assert_eq!(parse_log_level("DEBUG").unwrap(), LogLevel::Debug);
    assert_eq!(parse_log_level("Info").unwrap(), LogLevel::Info);
    assert_eq!(parse_log_level("wArN").unwrap(), LogLevel::Warn);
    assert_eq!(parse_log_level("error").unwrap(), LogLevel::Error);
    match parse_log_level("verbose") {
        Err(ConfigError::InvalidValue(m)) => assert_eq!(m, "Invalid log level: verbose"),
        other => panic!("expected InvalidValue, got {other:?}"),
    }
}

#[test]
fn trim_removes_surrounding_whitespace_only() {
    assert_eq!(trim("  a b \t\r\n"), "a b");
    assert_eq!(trim(""), "");
    assert_eq!(trim(" \t "), "");
    assert_eq!(trim("xyz"), "xyz");
}

#[test]
fn starts_with_checks_the_prefix() {
    assert!(starts_with("https://x", "http"));
    assert!(!starts_with("ftp://x", "http"));
    assert!(!starts_with("ht", "http"));
    assert!(starts_with("anything", ""));
}

#[test]
fn parse_usize_accepts_exactly_digit_strings() {
    assert_eq!(parse_usize("0"), Some(0));
    assert_eq!(parse_usize("42"), Some(42));
    assert_eq!(parse_usize("18446744073709551615"), Some(usize::MAX));
    assert_eq!(parse_usize("18446744073709551616"), None, "overflow");
    assert_eq!(parse_usize(""), None);
    assert_eq!(parse_usize("12a"), None);
    assert_eq!(parse_usize("-3"), None);
}

#[test]
fn page_numbers_come_from_the_file_name() {
    assert_eq!(extract_page_number("rust-page-3.html"), Some(3));
    assert_eq!(extract_page_number("rust-page-27.html"), Some(27));
    assert_eq!(extract_page_number("nodashes.html"), None);
    assert_eq!(extract_page_number("one-dash.html"), None);
    assert_eq!(extract_page_number("rust-page-x.html"), None);
}

#[test]
fn render_usize_writes_decimal() {
    assert_eq!(render_usize(0), "0");
    assert_eq!(render_usize(7), "7");
    assert_eq!(render_usize(10), "10");
    assert_eq!(render_usize(12345), "12345");
}

#[test]
fn stats_record_successes_and_failures() {
    let mut s = ProxyStats::new();
    assert_eq!(s.validation_status, None);
    s.set_validation_status("success".to_string());
    assert_eq!(s.validation_status.as_deref(), Some("success"));
    s.record_success("/a".to_string(), 200);
    s.record_success("/b".to_string(), 200);
    s.record_failure("/c".to_string(), "boom".to_string(), Some(502));
    s.record_failure("/d".to_string(), "no code".to_string(), None);
    assert_eq!(s.total_requests, 4);
    assert_eq!(s.successful_requests, 2);
    assert_eq!(s.failed_requests, 2);
    assert_eq!(s.status_codes, vec![(200, 2), (502, 1)]);
    assert_eq!(s.successful_urls, vec!["/a".to_string(), "/b".to_string()]);
    assert_eq!(
        s.failed_urls,
        vec![("/c".to_string(), "boom".to_string()), ("/d".to_string(), "no code".to_string())]
    );
    let copy = s.duplicate();
    assert_eq!(copy.total_requests, s.total_requests);
    assert_eq!(copy.status_codes, s.status_codes);
    assert_eq!(copy.successful_urls, s.successful_urls);
    assert_eq!(copy.failed_urls, s.failed_urls);
    assert_eq!(copy.validation_status, s.validation_status);
}

fn doc(active: Option<&str>, has_next: bool, next_disabled: bool, pages: &[&str]) -> PageDoc {
    PageDoc {
        active_page_text: active.map(|s| s.to_string()),
        has_next,
        next_disabled,
        page_texts: pages.iter().map(|s| s.to_string()).collect(),
    }
}

#[test]
fn analyze_reads_current_next_and_total() {
    let scraper = PageScraper::new(doc(Some(" 2 "), true, false, &["1", "2", "10"]))
        .with_base_url("https://example.org".to_string());
    let info = scraper.analyze().unwrap();
    assert_eq!(info.current_page, 2);
    assert_eq!(info.next_url.as_deref(), Some("https://example.org/developers/rust?page=2"));
    assert_eq!(info.total_pages, Some(10));
}

#[test]
fn analyze_defaults_to_page_one_without_pagination() {
    let scraper = PageScraper::new(doc(None, false, false, &[]));
    let info = scraper.analyze().unwrap();
    assert_eq!(info.current_page, 1);
    assert_eq!(info.next_url, None);
    assert_eq!(info.total_pages, None);
}

#[test]
fn analyze_stops_at_a_disabled_next_control() {
    let scraper = PageScraper::new(doc(Some("4"), true, true, &["3", "4"]));
    let info = scraper.analyze().unwrap();
    assert_eq!(info.current_page, 4);
    assert_eq!(info.next_url, None);
    assert_eq!(info.total_pages, Some(4));
}

#[test]
fn analyze_rejects_an_unreadable_page_marker() {
    let scraper = PageScraper::new(doc(Some("two"), true, false, &["1"]));
    match scraper.analyze() {
        Err(ScraperError::ParseError(m)) => assert_eq!(m, "Could not parse page number"),
        other => panic!("expected ParseError, got {other:?}"),
    }
}

#[test]
fn unparsable_page_links_are_skipped_for_the_total() {
    let scraper = PageScraper::new(doc(Some("1"), true, false, &["next", "3", "....", "2"]));
    let info = scraper.analyze().unwrap();
    assert_eq!(info.total_pages, Some(3));
}

#[test]
fn client_response_exposes_status_and_content() {
    let r = proxy_pool::client::ClientResponse { status: 200, content: "<html>".to_string() };
    assert_eq!(r.status, 200);
    assert_eq!(r.content, "<html>");
}
