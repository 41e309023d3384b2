use fogwatch::app::{App, StatusCounts, StatusFilter};
use fogwatch::highlight::{
    format_json_value, format_json_value_checked, highlight_line, highlight_text, reindent_pretty_json,
    white_space,
};
use fogwatch::json::{event_response_status, Json, JsonNumber};
use fogwatch::render::{
    bar_length, chart_lines, detail_end_scroll, detail_target, detail_text, entries_line, entry_texts,
    event_layout, event_summary, event_time, filter_label, indent_block, log_row, outcome_label,
    pane_titles, row_line, status_bar, status_tint, visible_events, LogEntryText, Span, Tint,
};
use fogwatch::text::{
    i64_text, join_texts, replace_text, split_lines, str_eq, trim_quotes_text, u64_text,
};
use fogwatch::types::{Exception, LogEntry, Outcome, TailEventMessage};

fn s(x: &str) -> String {
    x.to_string()
}

fn obj(members: Vec<(&str, Json)>) -> Json {
    Json::Object(members.into_iter().map(|(k, v)| (k.to_string(), v)).collect())
}

fn request_event(method: &str, url: &str, status: Option<u64>) -> Json {
    let mut members = vec![(
        "request",
        obj(vec![("method", Json::String(s(method))), ("url", Json::String(s(url)))]),
    )];
    if let Some(code) = status {
        members.push(("response", obj(vec![("status", Json::Number(JsonNumber::PosInt(code)))])));
    }
    obj(members)
}

fn message(event: Option<Json>) -> TailEventMessage {
    TailEventMessage {
        outcome: Outcome::Exception,
        script_name: None,
        exceptions: vec![],
        logs: vec![],
        event_timestamp: 0,
        event,
        status: None,
    }
}

fn view(spans: &[Span]) -> Vec<(String, Tint)> {
    spans.iter().map(|sp| (sp.text.clone(), sp.tint)).collect()
}

#[test]
fn decimal_texts() {
    assert_eq!(u64_text(0), "0");
    assert_eq!(u64_text(7), "7");
    assert_eq!(u64_text(1234567890), "1234567890");
    assert_eq!(u64_text(u64::MAX), u64::MAX.to_string());
    assert_eq!(i64_text(-42), "-42");
    assert_eq!(i64_text(i64::MIN), i64::MIN.to_string());
    assert_eq!(i64_text(0), "0");
}

#[test]
fn string_helpers() {
    assert!(str_eq("abc", "abc"));
    assert!(!str_eq("abc", "abd"));
    assert!(!str_eq("abc", "ab"));
    assert_eq!(replace_text("aaa", "aa", "b"), "ba");
    assert_eq!(replace_text("xyz", "q", "r"), "xyz");
    assert_eq!(trim_quotes_text("\"\"abc\""), "abc");
    assert_eq!(trim_quotes_text("\"\"\""), "");
    assert_eq!(trim_quotes_text("a\"b"), "a\"b");
    assert_eq!(split_lines("a\r\nb\n"), vec![s("a"), s("b")]);
    assert_eq!(split_lines("a\rb"), vec![s("a\rb")]);
    assert_eq!(split_lines("\n\nx"), vec![s(""), s(""), s("x")]);
    assert!(split_lines("").is_empty());
    assert_eq!(join_texts(&vec![s("a"), s("b"), s("c")], ", "), "a, b, c");
    assert_eq!(join_texts(&vec![], ", "), "");
}

#[test]
fn json_lookups() {
    let e = request_event("GET", "https://x", Some(204));
    assert_eq!(event_response_status(&e), Some(204));
    assert!(e.get("missing").is_none());
    assert_eq!(e.get("request").and_then(|r| r.get("method")).and_then(|m| m.as_str()), Some("GET"));
    let negative = obj(vec![("response", obj(vec![("status", Json::Number(JsonNumber::NegInt(-1)))]))]);
    assert_eq!(event_response_status(&negative), None);
    let text_status = obj(vec![("response", obj(vec![("status", Json::String(s("200")))]))]);
    assert_eq!(event_response_status(&text_status), None);
    assert_eq!(Json::Array(vec![]).get("response").is_none(), true);
    assert_eq!(Json::Number(JsonNumber::Float(s("1.5"))).as_u64(), None);
}

#[test]
fn labels_and_tints() {
    assert_eq!(outcome_label(Outcome::Okay), "OK");
    assert_eq!(outcome_label(Outcome::Exception), "ERROR");
    assert_eq!(outcome_label(Outcome::ExceededCpu), "CPU_LIMIT");
    assert_eq!(outcome_label(Outcome::ExceededMemory), "MEM_LIMIT");
    assert_eq!(outcome_label(Outcome::Canceled), "CANCELED");
    assert_eq!(outcome_label(Outcome::Unknown), "UNKNOWN");
    assert_eq!(filter_label(StatusFilter::Success), "2xx");
    assert_eq!(filter_label(StatusFilter::Other), "Other");
    assert_eq!(filter_label(StatusFilter::All), "All");
    assert_eq!(status_tint(Some(299)), Tint::Green);
    assert_eq!(status_tint(Some(404)), Tint::Yellow);
    assert_eq!(status_tint(Some(599)), Tint::Red);
    assert_eq!(status_tint(Some(302)), Tint::White);
    assert_eq!(status_tint(None), Tint::White);
    assert_eq!(pane_titles(false, None), (s("Logs (focused)"), "Details"));
    assert_eq!(pane_titles(true, None), (s("Logs"), "Details (focused)"));
    assert_eq!(pane_titles(false, Some(StatusFilter::ClientErr)), (s("Logs [4xx] (focused)"), "Details"));
    assert_eq!(pane_titles(true, Some(StatusFilter::All)), (s("Logs [All]"), "Details (focused)"));
}

#[test]
fn event_summaries() {
    assert_eq!(
        event_summary(&Some(request_event("POST", "https://w/x", Some(503)))),
        (s("POST https://w/x (503)"), Tint::Red)
    );
    assert_eq!(
        event_summary(&Some(request_event("GET", "https://w/", None))),
        (s("GET https://w/ (---)"), Tint::White)
    );
    let odd_request = obj(vec![("request", obj(vec![("method", Json::Null)]))]);
    assert_eq!(event_summary(&Some(odd_request)), (s("UNKNOWN UNKNOWN (---)"), Tint::White));
    let cron = obj(vec![("cron", Json::String(s("*/5 * * * *")))]);
    assert_eq!(event_summary(&Some(cron)), (s("CRON: */5 * * * *"), Tint::Cyan));
    let queue = obj(vec![("queue", Json::Bool(true))]);
    assert_eq!(event_summary(&Some(queue)), (s("QUEUE: UNKNOWN"), Tint::Magenta));
    assert_eq!(event_summary(&Some(obj(vec![]))), (s("EVENT"), Tint::White));
    assert_eq!(event_summary(&None), (s(""), Tint::White));
}

#[test]
fn log_rows() {
    let entries = vec![
        LogEntryText { level: s("log"), values: vec![s("\"hello\""), s("42")] },
        LogEntryText { level: s("warn"), values: vec![] },
    ];
    assert_eq!(entries_line(&entries), "[log] hello 42 [warn] ");
    assert_eq!(row_line("T", Outcome::Okay, "", "m"), "T | OK | m");
    assert_eq!(row_line("T", Outcome::Okay, "GET u (200)", "m"), "T | OK | GET u (200) | m");
    let mut ev = message(Some(request_event("GET", "u", Some(200))));
    ev.event_timestamp = 86400 + 3661;
    ev.logs = vec![
        LogEntry {
            message: vec![Json::String(s("hello")), Json::Number(JsonNumber::PosInt(42))],
            level: s("log"),
            timestamp: 0,
        },
        LogEntry { message: vec![], level: s("warn"), timestamp: 0 },
    ];
    let texts = entry_texts(&ev.logs);
    assert_eq!(texts[0].values, vec![s("\"hello\""), s("42")]);
    assert_eq!(
        log_row(&ev),
        (s("1970-01-02 01:01:01 | ERROR | GET u (200) | [log] hello 42 [warn] "), Tint::Green)
    );
}

#[test]
fn times_in_utc() {
    assert_eq!(event_time(0, false), "1970-01-01 00:00:00");
    assert_eq!(event_time(0, true), "1970-01-01 00:00:00.000");
    assert_eq!(event_time(1_700_000_000, false), "2023-11-14 22:13:20");
    assert_eq!(event_time(i64::MAX, false), "1970-01-01 00:00:00");
}

#[test]
fn chart_of_counts() {
    let c = StatusCounts { success: 3, client_err: 1, server_err: 0, other: 0 };
    let lines = chart_lines(&c);
    assert_eq!(lines.len(), 2);
    assert_eq!(
        view(&lines[0]),
        vec![
            (s("2xx: 3    "), Tint::Green),
            (s(" | "), Tint::Plain),
            (s("4xx: 1    "), Tint::Yellow),
            (s(" | "), Tint::Plain),
            (s("5xx: 0    "), Tint::Red),
            (s(" | "), Tint::Plain),
            (s("Other: 0    "), Tint::Gray),
            (s(" | Total: 4"), Tint::Plain),
        ]
    );
    let widths: Vec<usize> = lines[1].iter().map(|sp| sp.text.chars().count()).collect();
    assert_eq!(widths, vec![37, 12, 1, 1]);
    assert!(lines[1].iter().all(|sp| sp.text.chars().all(|ch| ch == '█')));
    let none = chart_lines(&StatusCounts { success: 0, client_err: 0, server_err: 0, other: 0 });
    assert_eq!(view(&none[0]), vec![(s("No requests recorded yet"), Tint::Plain)]);
    let wide = chart_lines(&StatusCounts { success: 123456, client_err: 0, server_err: 0, other: 0 });
    assert_eq!(wide[0][0].text, "2xx: 123456");
    assert_eq!(bar_length(1, 1000), 1);
    assert_eq!(bar_length(1000, 1000), 50);
    assert_eq!(bar_length(10, 20), 25);
}

#[test]
fn status_bar_pieces() {
    let mut app = App::new(vec![s("w1")]);
    assert_eq!(
        view(&status_bar(&app)),
        vec![(s("Status: "), Tint::Plain), (s("Selecting worker"), Tint::Yellow)]
    );
    app.select_worker();
    assert_eq!(
        view(&status_bar(&app)),
        vec![
            (s("Status: "), Tint::Plain),
            (s("Connecting"), Tint::Yellow),
            (s(" to worker "), Tint::Plain),
            (s("w1"), Tint::Cyan),
            (s(" | Filter: "), Tint::Plain),
            (s("All"), Tint::Yellow),
        ]
    );
    app.connection_finished(true);
    app.set_filter(None);
    assert_eq!(
        view(&status_bar(&app)),
        vec![
            (s("Status: "), Tint::Plain),
            (s("Connected"), Tint::Green),
            (s(" to worker "), Tint::Plain),
            (s("w1"), Tint::Cyan),
        ]
    );
}

#[test]
fn visible_rows_and_detail_target() {
    let mut app = App::new(vec![s("w")]);
    let mut hidden = message(None);
    hidden.outcome = Outcome::Okay;
    app.receive_log(hidden, 100);
    app.receive_log(message(None), 100);
    app.filtered_logs = vec![1, 5, 0];
    assert_eq!(visible_events(&app), vec![1, 0]);
    app.log_state.select(Some(0));
    assert_eq!(detail_target(&app), None);
    app.toggle_details();
    assert_eq!(detail_target(&app), Some(1));
    assert!(detail_text(&app.logs[1]).contains("Outcome: Exception"));
    app.log_state.select(Some(1));
    assert_eq!(detail_target(&app), None);
    app.log_state.select(Some(2));
    assert_eq!(detail_target(&app), Some(0));
}

#[test]
fn detail_pane_text() {
    let ev = TailEventMessage {
        outcome: Outcome::Okay,
        script_name: Some(s("worker-a")),
        exceptions: vec![Exception { name: s("Error"), message: Json::String(s("boom")), timestamp: 0 }],
        logs: vec![LogEntry { message: vec![Json::Null], level: s("log"), timestamp: 0 }],
        event_timestamp: 0,
        event: Some(obj(vec![])),
        status: None,
    };
    assert_eq!(
        detail_text(&ev),
        "Timestamp: 1970-01-01 00:00:00.000\nOutcome: Ok\nScript: worker-a\n\nEvent Details:\n\n\u{a0}\u{a0}\u{a0}\u{a0}{\n\u{a0}\u{a0}\u{a0}\u{a0}}\n\n\n\nLogs:\n\n    [log]\n        null\n\nExceptions:\n\n    Error: \n        \"boom\""
    );
    let bare = message(None);
    assert_eq!(detail_text(&bare), "Timestamp: 1970-01-01 00:00:00.000\nOutcome: Exception");
    assert_eq!(indent_block("{\n  \"a\": 1\n}"), "        {\n          \"a\": 1\n        }");
}

#[test]
fn event_record_layout() {
    let n = "\u{a0}\u{a0}\u{a0}\u{a0}";
    let record = obj(vec![
        ("a", Json::Number(JsonNumber::PosInt(1))),
        ("b", obj(vec![("c", Json::String(s("x\"y")))])),
        ("d", Json::Array(vec![Json::Bool(true), Json::Null])),
    ]);
    let expected = format!(
        "{n}{{\n{n}{n}\"a\": 1,\n{n}{n}\"b\": {{\n{n}{n}{{\n{n}{n}{n}\"c\": \"x\"y\",\n{n}{n}}}\n{n}{n}}},\n{n}{n}\"d\": [true,null],\n{n}}}"
    );
    assert_eq!(event_layout(&record), expected);
    assert_eq!(event_layout(&Json::String(s("q"))), "\"q\"");
}

#[test]
fn json_values_formatted_under_a_margin() {
    let value = obj(vec![("a", Json::Number(JsonNumber::PosInt(1)))]);
    assert_eq!(format_json_value(&value, 2), "  {\n    \"a\": 1\n  }");
    let nested = obj(vec![("a", obj(vec![("b", Json::Null)]))]);
    assert_eq!(format_json_value(&nested, 1), " {\n   \"a\": {\n     \"b\": null\n   }\n }");
    assert_eq!(format_json_value_checked(&Json::Bool(false), 3), Some(s("   false")));
    assert_eq!(format_json_value_checked(&nested, usize::MAX), None);
}

#[test]
fn end_jumps_to_the_last_detail_line() {
    let mut app = App::new(vec![s("w")]);
    app.select_worker();
    app.connection_finished(true);
    app.receive_log(message(None), 100);
    app.handle_key(fogwatch::app::Key::Down);
    app.handle_key(fogwatch::app::Key::Enter);
    app.handle_key(fogwatch::app::Key::Tab);
    assert_eq!(detail_end_scroll(&app), 1);
    app.handle_key(fogwatch::app::Key::End);
    assert_eq!(app.detail_scroll, 1);
    app.handle_key(fogwatch::app::Key::Home);
    assert_eq!(app.detail_scroll, 0);
}

#[test]
fn highlighting_tokens() {
    let spans = highlight_line("  \"key\": -12.5, \"v\" true null x-y");
    assert_eq!(
        view(&spans),
        vec![
            (s(" "), Tint::Plain),
            (s(" "), Tint::Plain),
            (s("\"key\""), Tint::Magenta),
            (s(":"), Tint::Cyan),
            (s(" "), Tint::Plain),
            (s("-12.5"), Tint::Yellow),
            (s(","), Tint::Cyan),
            (s(" "), Tint::Plain),
            (s("\"v\""), Tint::Green),
            (s(" "), Tint::Plain),
            (s("true"), Tint::Blue),
            (s(" "), Tint::Plain),
            (s("null"), Tint::DarkGray),
            (s(" "), Tint::Plain),
            (s("x-y"), Tint::Plain),
        ]
    );
    let open = highlight_line("\"unterminated: {");
    assert_eq!(view(&open), vec![(s("\"unterminated: {"), Tint::Green)]);
    let line = "{\"a\":[1,2],\"b\":\"c d\"}\u{a0}ok";
    let joined: String = highlight_line(line).iter().map(|sp| sp.text.as_str()).collect();
    assert_eq!(joined, line);
    let lines = highlight_text("{\n}");
    assert_eq!(lines.len(), 2);
    assert_eq!(view(&lines[1]), vec![(s("}"), Tint::Cyan)]);
    assert!(white_space('\u{3000}') && white_space('\t') && !white_space('x'));
}

#[test]
fn pretty_json_reindented() {
    assert_eq!(reindent_pretty_json("{\n  \"a\": 1\n}", 2), "  {\n    \"a\": 1\n  }");
    assert_eq!(reindent_pretty_json("5", 3), "   5");
    assert_eq!(reindent_pretty_json("", 3), "");
}
