use fogwatch::api::{
    listing_failure_message, listing_status_failure, network_failure_message, session_failure_message,
    session_status_failure, tail_url, websocket_url, worker_ids, workers_from_response, workers_url,
    unreadable_listing_message, PingDecision, PingMonitor, RequestFailure,
};
use fogwatch::config::{
    config_source, default_batch_size, default_detail_width, default_environments, default_false,
    default_log_file, default_log_level, default_max_log_entries, default_max_retry_attempts,
    default_reconnect_interval, default_theme, default_timestamp_format, default_true,
    default_websocket_timeout, resolve_credential, save_target, Config, ConfigSource, CredentialSource,
};
use fogwatch::filters::{outcome_for, parse_filters, FilterOptions};
use fogwatch::types::{
    create_log_entry, create_tail_event, parse_output_format, CloudflareError, OutputFormat, Outcome,
    TailFilter, WorkerScript, WorkerScriptResponse,
};
use fogwatch::json::Json;

fn script(id: &str) -> WorkerScript {
    WorkerScript {
        id: id.to_string(),
        etag: "e".to_string(),
        script: None,
        size: None,
        modified_on: "m".to_string(),
        created_on: "c".to_string(),
        usage_model: None,
        compatibility_date: None,
        compatibility_flags: None,
    }
}

#[test]
fn default_functions_give_documented_values() {
    assert_eq!(default_theme(), "dark");
    assert_eq!(default_detail_width(), 50);
    assert_eq!(default_max_log_entries(), 1000);
    assert_eq!(default_timestamp_format(), "RFC3339");
    assert!(default_true());
    assert!(!default_false());
    assert_eq!(default_log_level(), "info");
    assert_eq!(default_reconnect_interval(), 5);
    assert_eq!(default_batch_size(), 100);
    assert_eq!(default_environments(), vec!["production".to_string()]);
    assert_eq!(default_websocket_timeout(), 30);
    assert_eq!(default_max_retry_attempts(), 3);
    assert_eq!(default_log_file(), "~/.fogwatch/logs");
}

#[test]
fn default_config_uses_default_functions() {
    let c = Config::default();
    assert!(c.auth.api_token.is_none() && c.auth.account_id.is_none());
    assert_eq!(c.ui.theme, "dark");
    assert_eq!(c.ui.default_detail_width, 50);
    assert_eq!(c.ui.max_log_entries, 1000);
    assert_eq!(c.ui.timestamp_format, "RFC3339");
    assert!(c.ui.show_status_bar && c.ui.enable_mouse);
    assert!(c.logs.syntax_highlight && c.logs.auto_scroll && c.logs.preserve_scroll);
    assert!(!c.logs.show_line_numbers);
    assert_eq!(c.logs.default_log_level, "info");
    assert!(c.workers.auto_reconnect);
    assert_eq!(c.workers.reconnect_interval, 5);
    assert_eq!(c.workers.batch_size, 100);
    assert_eq!(c.workers.environments, vec!["production".to_string()]);
    assert_eq!(c.advanced.websocket_timeout, 30);
    assert_eq!(c.advanced.max_retry_attempts, 3);
    assert!(!c.advanced.debug_mode && !c.advanced.log_persistence);
    assert_eq!(c.advanced.log_file, "~/.fogwatch/logs");
}

#[test]
fn environment_overrides_only_what_is_set() {
    let mut c = Config::default();
    c.auth.api_token = Some("file-token".to_string());
    c.auth.account_id = Some("file-account".to_string());
    c.merge_environment(Some("env-token".to_string()), None);
    assert_eq!(c.auth.api_token.as_deref(), Some("env-token"));
    assert_eq!(c.auth.account_id.as_deref(), Some("file-account"));
    c.merge_environment(None, Some("env-account".to_string()));
    assert_eq!(c.auth.api_token.as_deref(), Some("env-token"));
    assert_eq!(c.auth.account_id.as_deref(), Some("env-account"));
    assert_eq!(c.ui.theme, "dark");
}

#[test]
fn settings_file_precedence() {
    assert_eq!(config_source(true, true), ConfigSource::Project);
    assert_eq!(config_source(true, false), ConfigSource::Project);
    assert_eq!(config_source(false, true), ConfigSource::User);
    assert_eq!(config_source(false, false), ConfigSource::Defaults);
    assert_eq!(save_target(true), ConfigSource::Project);
    assert_eq!(save_target(false), ConfigSource::User);
}

#[test]
fn credentials_prefer_command_line() {
    let (v, s) = resolve_credential(Some("cli".to_string()), Some("cfg".to_string()));
    assert_eq!(v.as_deref(), Some("cli"));
    assert_eq!(s.label(), "command line");
    let (v, s) = resolve_credential(None, Some("env".to_string()));
    assert_eq!(v.as_deref(), Some("env"));
    assert_eq!(s, CredentialSource::ConfigFile);
    assert_eq!(s.label(), "config file");
    let (v, s) = resolve_credential(None, None);
    assert!(v.is_none());
    assert_eq!(s.label(), "default");
}

#[test]
fn output_format_names_in_any_case() {
    assert_eq!(parse_output_format("pretty"), Ok(OutputFormat::Pretty));
    assert_eq!(parse_output_format("JSON"), Ok(OutputFormat::Json));
    assert_eq!(parse_output_format("Compact"), Ok(OutputFormat::Compact));
    assert_eq!("json".parse::<OutputFormat>(), Ok(OutputFormat::Json));
    assert_eq!(
        parse_output_format("XML"),
        Err("Unknown output format: XML. Valid formats are: pretty, json, compact".to_string())
    );
}

#[test]
fn own_log_entries_and_events() {
    let e = create_log_entry("hello".to_string(), "debug", 42);
    assert_eq!(e.level, "debug");
    assert_eq!(e.timestamp, 42);
    assert!(matches!(&e.message[..], [Json::String(m)] if m == "hello"));
    let ev = create_tail_event(e);
    assert_eq!(ev.outcome, Outcome::Okay);
    assert_eq!(ev.event_timestamp, 42);
    assert_eq!(ev.logs.len(), 1);
    assert!(ev.event.is_none() && ev.status.is_none() && ev.script_name.is_none());
    assert!(ev.exceptions.is_empty());
}

fn names(v: &[String]) -> Vec<&str> {
    v.iter().map(|s| s.as_str()).collect()
}

#[test]
fn default_filters_ask_for_everything() {
    let f = parse_filters(&FilterOptions { method: None, search: None, status: None });
    assert_eq!(f.len(), 3);
    assert!(matches!(f[0], TailFilter::SamplingRate { parts_per_million: 1_000_000 }));
    match &f[1] {
        TailFilter::Method { method } => assert_eq!(
            names(method),
            vec!["GET", "POST", "PUT", "DELETE", "OPTIONS", "HEAD", "PATCH", "TRACE"]
        ),
        other => panic!("unexpected {other:?}"),
    }
    match &f[2] {
        TailFilter::Outcome { outcome } => assert_eq!(
            names(outcome),
            vec!["ok", "exception", "canceled", "exceededCpu", "exceededMemory"]
        ),
        other => panic!("unexpected {other:?}"),
    }
}

#[test]
fn chosen_filters_are_passed_on() {
    let f = parse_filters(&FilterOptions {
        method: Some(vec!["GET".to_string(), "POST".to_string()]),
        search: Some("needle".to_string()),
        status: Some(vec!["ok".to_string(), "error".to_string(), "canceled".to_string(), "odd".to_string()]),
    });
    assert_eq!(f.len(), 4);
    assert!(matches!(&f[1], TailFilter::Method { method } if names(method) == vec!["GET", "POST"]));
    assert!(matches!(&f[2], TailFilter::Query { query } if query == "needle"));
    assert!(matches!(&f[3], TailFilter::Outcome { outcome }
        if names(outcome) == vec!["ok", "exception", "canceled", "unknown"]));
    assert_eq!(outcome_for("error"), "exception");
    assert_eq!(outcome_for("Error"), "unknown");
}

#[test]
fn api_addresses() {
    assert_eq!(
        tail_url("acc", "my-worker"),
        "https://api.cloudflare.com/client/v4/accounts/acc/workers/scripts/my-worker/tails"
    );
    assert_eq!(workers_url("acc"), "https://api.cloudflare.com/client/v4/accounts/acc/workers/scripts");
}

#[test]
fn websocket_address_replaces_plain_http() {
    assert_eq!(websocket_url("http://tail.example/abc"), "wss://tail.example/abc");
    assert_eq!(websocket_url("https://tail.example/abc"), "https://tail.example/abc");
    assert_eq!(websocket_url("http://a?next=http://b"), "wss://a?next=wss://b");
    assert_eq!(websocket_url(""), "");
}

#[test]
fn listing_failures_by_status() {
    assert_eq!(listing_status_failure(200, "x"), None);
    assert_eq!(listing_status_failure(299, "x"), None);
    assert_eq!(
        listing_status_failure(401, "x").as_deref(),
        Some("Authentication failed. Please check your API token.")
    );
    assert_eq!(
        listing_status_failure(403, "x").as_deref(),
        Some("Access denied. Please verify your account ID and API token permissions.")
    );
    assert_eq!(
        listing_status_failure(404, "x").as_deref(),
        Some("Account not found. Please verify your account ID.")
    );
    assert_eq!(
        listing_status_failure(429, "x").as_deref(),
        Some("Rate limit exceeded. Please try again later.")
    );
    assert_eq!(
        listing_status_failure(500, "oops").as_deref(),
        Some("HTTP error 500 Internal Server Error: oops")
    );
    assert_eq!(listing_failure_message(502, "502 Bad Gateway", "b"), "HTTP error 502 Bad Gateway: b");
}

#[test]
fn session_failures_by_status() {
    assert_eq!(session_status_failure(201, "x"), None);
    assert_eq!(session_status_failure(400, "bad").as_deref(), Some("HTTP error: 400 Bad Request bad"));
    assert_eq!(session_failure_message("418 I'm a teapot", "t"), "HTTP error: 418 I'm a teapot t");
}

#[test]
fn network_failures() {
    assert_eq!(
        network_failure_message(RequestFailure::Connect, "d"),
        "Could not connect to Cloudflare API. Please check your internet connection."
    );
    assert_eq!(
        network_failure_message(RequestFailure::Timeout, "d"),
        "Connection to Cloudflare API timed out. Please try again."
    );
    assert_eq!(
        network_failure_message(RequestFailure::Other, "dns"),
        "Network error: dns. Please check your connection and try again."
    );
    assert_eq!(
        unreadable_listing_message(),
        "Failed to parse Cloudflare API response. This might be a temporary issue, please try again."
    );
}

#[test]
fn worker_listing_outcomes() {
    let failed = WorkerScriptResponse {
        result: vec![script("a")],
        success: false,
        errors: vec![
            CloudflareError { code: 10000, message: "Authentication error".to_string() },
            CloudflareError { code: -7, message: "odd".to_string() },
        ],
        messages: vec![],
    };
    assert_eq!(
        workers_from_response(failed).err().as_deref(),
        Some("Cloudflare API error: 10000: Authentication error, -7: odd")
    );
    let failed_silently = WorkerScriptResponse { result: vec![], success: false, errors: vec![], messages: vec![] };
    assert_eq!(workers_from_response(failed_silently).err().as_deref(), Some("Cloudflare API error: "));
    let empty = WorkerScriptResponse { result: vec![], success: true, errors: vec![], messages: vec![] };
    assert_eq!(
        workers_from_response(empty).err().as_deref(),
        Some("No workers found in your account. Please make sure you have deployed at least one worker.")
    );
    let ok = WorkerScriptResponse { result: vec![script("a"), script("b")], success: true, errors: vec![], messages: vec![] };
    let listed = workers_from_response(ok).unwrap();
    assert_eq!(worker_ids(listed), vec!["a".to_string(), "b".to_string()]);
}

#[test]
fn unanswered_ping_ends_keep_alive() {
    let mut m = PingMonitor::new();
    assert_eq!(m.tick(), PingDecision::SendPing);
    m.pong_received();
    assert_eq!(m.tick(), PingDecision::SendPing);
    assert_eq!(m.tick(), PingDecision::GiveUp);
}
