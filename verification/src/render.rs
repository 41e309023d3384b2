//! The text that the screens show, computed from the interface state: the
//! status chart, the rows of the log list and the status bar.

use vstd::prelude::*;
use crate::app::{App, AppState, StatusCounts, StatusFilter};
use crate::json::{compact_json, compact_json_text, event_response_status, pretty_json, pretty_json_text, response_status, Json};
use crate::text::{append, decimal, join_texts, joined, lines_of, owned, push_char, split_lines, texts, trim_quotes, trim_quotes_text, u64_text};
use crate::types::{Exception, LogEntry, Outcome, TailEventMessage};

verus! {

/// The colour in which a piece of text is drawn; `Plain` keeps the colour of
/// its surroundings.
#[derive(Debug, Clone, Copy, PartialEq, Eq, Structural)]
pub enum Tint {
    Plain,
    White,
    Black,
    Gray,
    DarkGray,
    Green,
    Yellow,
    Red,
    Blue,
    Cyan,
    Magenta,
}

/// A piece of text and its colour.
#[derive(Debug)]
pub struct Span {
    pub text: String,
    pub tint: Tint,
}

/// The word for an outcome in the log list.
pub open spec fn outcome_word(o: Outcome) -> Seq<char> {
    match o {
        Outcome::Okay => "OK"@,
        Outcome::Exception => "ERROR"@,
        Outcome::Canceled => "CANCELED"@,
        Outcome::ExceededCpu => "CPU_LIMIT"@,
        Outcome::ExceededMemory => "MEM_LIMIT"@,
        Outcome::Unknown => "UNKNOWN"@,
    }
}

/// The word for an outcome in the log list.
pub fn outcome_label(o: Outcome) -> (r: &'static str)
    ensures
        r@ == outcome_word(o),
{
    match o {
        Outcome::Okay => "OK",
        Outcome::Exception => "ERROR",
        Outcome::Canceled => "CANCELED",
        Outcome::ExceededCpu => "CPU_LIMIT",
        Outcome::ExceededMemory => "MEM_LIMIT",
        Outcome::Unknown => "UNKNOWN",
    }
}

/// The name of a status filter in the status bar.
pub open spec fn filter_word(f: StatusFilter) -> Seq<char> {
    match f {
        StatusFilter::Success => "2xx"@,
        StatusFilter::ClientErr => "4xx"@,
        StatusFilter::ServerErr => "5xx"@,
        StatusFilter::Other => "Other"@,
        StatusFilter::All => "All"@,
    }
}

/// The name of a status filter in the status bar.
pub fn filter_label(f: StatusFilter) -> (r: &'static str)
    ensures
        r@ == filter_word(f),
{
    match f {
        StatusFilter::Success => "2xx",
        StatusFilter::ClientErr => "4xx",
        StatusFilter::ServerErr => "5xx",
        StatusFilter::Other => "Other",
        StatusFilter::All => "All",
    }
}

/// The colour of a row of the log list with this HTTP status.
pub open spec fn status_tint_of(status: Option<u64>) -> Tint {
    match status {
        Some(s) => if 200 <= s <= 299 {
            Tint::Green
        } else if 400 <= s <= 499 {
            Tint::Yellow
        } else if 500 <= s <= 599 {
            Tint::Red
        } else {
            Tint::White
        },
        None => Tint::White,
    }
}

/// The colour of a row of the log list with this HTTP status.
pub fn status_tint(status: Option<u64>) -> (r: Tint)
    ensures
        r == status_tint_of(status),
{
    match status {
        Some(s) => if 200 <= s && s <= 299 {
            Tint::Green
        } else if 400 <= s && s <= 499 {
            Tint::Yellow
        } else if 500 <= s && s <= 599 {
            Tint::Red
        } else {
            Tint::White
        },
        None => Tint::White,
    }
}

/// The text of a string member, or `UNKNOWN`.
pub open spec fn member_text_or_unknown(v: Option<Json>) -> Seq<char> {
    match v {
        Some(j) => match j.spec_as_str() {
            Some(s) => s,
            None => "UNKNOWN"@,
        },
        None => "UNKNOWN"@,
    }
}

/// The text of a value, or `UNKNOWN` where it is no string.
pub open spec fn text_or_unknown(v: Json) -> Seq<char> {
    match v.spec_as_str() {
        Some(s) => s,
        None => "UNKNOWN"@,
    }
}

/// What a row of the log list says of the event record, and its colour: the
/// request's method, URL and status for a request; the schedule for a cron
/// trigger; the queue for a queue message; `EVENT` for anything else; nothing
/// where there is no record.
pub open spec fn event_summary_of(event: Option<Json>) -> (Seq<char>, Tint) {
    match event {
        None => (Seq::empty(), Tint::White),
        Some(e) => match e.spec_get("request"@) {
            Some(request) => {
                let status = response_status(e);
                let shown = match status {
                    Some(s) => decimal(s as nat),
                    None => "---"@,
                };
                (member_text_or_unknown(request.spec_get("method"@)) + " "@
                    + member_text_or_unknown(request.spec_get("url"@)) + " ("@ + shown + ")"@,
                 status_tint_of(status))
            },
            None => match e.spec_get("cron"@) {
                Some(cron) => ("CRON: "@ + text_or_unknown(cron), Tint::Cyan),
                None => match e.spec_get("queue"@) {
                    Some(queue) => ("QUEUE: "@ + text_or_unknown(queue), Tint::Magenta),
                    None => ("EVENT"@, Tint::White),
                },
            },
        },
    }
}

fn text_or_unknown_exec(v: Option<&Json>) -> (r: &str)
    ensures
        r@ == match v {
            Some(j) => text_or_unknown(*j),
            None => "UNKNOWN"@,
        },
{
    match v {
        Some(j) => match j.as_str() {
            Some(s) => s,
            None => "UNKNOWN",
        },
        None => "UNKNOWN",
    }
}

/// What a row of the log list says of the event record, and its colour.
pub fn event_summary(event: &Option<Json>) -> (r: (String, Tint))
    ensures
        (r.0@, r.1) == event_summary_of(*event),
{
    match event {
        None => (String::new(), Tint::White),
        Some(e) => match e.get("request") {
            Some(request) => {
                let status = event_response_status(e);
                let mut text = owned(text_or_unknown_exec(request.get("method")));
                append(&mut text, " ");
                append(&mut text, text_or_unknown_exec(request.get("url")));
                append(&mut text, " (");
                match status {
                    Some(s) => {
                        let digits = u64_text(s);
                        append(&mut text, digits.as_str());
                    },
                    None => append(&mut text, "---"),
                }
                append(&mut text, ")");
                (text, status_tint(status))
            },
            None => match e.get("cron") {
                Some(cron) => {
                    let mut text = owned("CRON: ");
                    append(&mut text, text_or_unknown_exec(Some(cron)));
                    (text, Tint::Cyan)
                },
                None => match e.get("queue") {
                    Some(queue) => {
                        let mut text = owned("QUEUE: ");
                        append(&mut text, text_or_unknown_exec(Some(queue)));
                        (text, Tint::Magenta)
                    },
                    None => (owned("EVENT"), Tint::White),
                },
            },
        },
    }
}

/// A row of the log list names what triggered the event in the record's own
/// words: a request row reads its method, its URL and its HTTP status in
/// decimal (`---` where the record has none), green for 2xx, yellow for 4xx,
/// red for 5xx and white otherwise; a cron row reads `CRON: ` and the
/// schedule, in cyan; a queue row reads `QUEUE: ` and the queue's name, in
/// magenta; a record with none of these reads `EVENT`, in white.
pub proof fn lemma_event_summary_texts(e: Json, a: String, b: String)
    ensures
        e.spec_get("request"@) is None && e.spec_get("cron"@) == Some(Json::String(a))
            ==> event_summary_of(Some(e)) == ("CRON: "@ + a@, Tint::Cyan),
        e.spec_get("request"@) is None && e.spec_get("cron"@) is None
            && e.spec_get("queue"@) == Some(Json::String(a))
            ==> event_summary_of(Some(e)) == ("QUEUE: "@ + a@, Tint::Magenta),
        e.spec_get("request"@) is None && e.spec_get("cron"@) is None && e.spec_get("queue"@) is None
            ==> event_summary_of(Some(e)) == ("EVENT"@, Tint::White),
        e.spec_get("request"@) matches Some(request)
            && request.spec_get("method"@) == Some(Json::String(a))
            && request.spec_get("url"@) == Some(Json::String(b))
            ==> event_summary_of(Some(e)).0 == a@ + " "@ + b@ + " ("@ + (match response_status(e) {
                Some(s) => decimal(s as nat),
                None => "---"@,
            }) + ")"@,
        e.spec_get("request"@) is Some ==> ({
            let t = event_summary_of(Some(e)).1;
            match response_status(e) {
                Some(s) => (200 <= s < 300 <==> t == Tint::Green)
                    && (400 <= s < 500 <==> t == Tint::Yellow)
                    && (500 <= s < 600 <==> t == Tint::Red)
                    && (!(200 <= s < 300 || 400 <= s < 600) <==> t == Tint::White),
                None => t == Tint::White,
            }
        }),
        event_summary_of(None) == (Seq::<char>::empty(), Tint::White),
{
}

/// One log entry of an event as the log list shows it: its level and the
/// JSON text of each of its arguments.
#[derive(Debug)]
pub struct LogEntryText {
    pub level: String,
    pub values: Vec<String>,
}

/// An entry in the log list: `[level]` and the arguments, each without
/// surrounding quotes, separated by spaces.
pub open spec fn entry_text(e: LogEntryText) -> Seq<char> {
    "["@ + e.level@ + "] "@ + joined(texts(e.values@).map_values(|v: Seq<char>| trim_quotes(v)), " "@)
}

/// All entries of an event, separated by spaces.
pub open spec fn entries_text(entries: Seq<LogEntryText>) -> Seq<char> {
    joined(entries.map_values(|e: LogEntryText| entry_text(e)), " "@)
}

/// An entry in the log list.
pub fn entry_line(e: &LogEntryText) -> (r: String)
    ensures
        r@ == entry_text(*e),
{
    let mut trimmed: Vec<String> = Vec::new();
    let mut i: usize = 0;
    while i < e.values.len()
        invariant
            i <= e.values@.len(),
            trimmed@.len() == i,
            forall|j: int| 0 <= j < i ==> #[trigger] trimmed@[j]@ == trim_quotes(e.values@[j]@),
        decreases e.values@.len() - i,
    {
        trimmed.push(trim_quotes_text(e.values[i].as_str()));
        i = i + 1;
    }
    assert(texts(trimmed@) =~= texts(e.values@).map_values(|v: Seq<char>| trim_quotes(v)));
    let mut r = owned("[");
    append(&mut r, e.level.as_str());
    append(&mut r, "] ");
    let body = join_texts(&trimmed, " ");
    append(&mut r, body.as_str());
    r
}

/// All entries of an event, separated by spaces.
pub fn entries_line(entries: &Vec<LogEntryText>) -> (r: String)
    ensures
        r@ == entries_text(entries@),
{
    let mut lines: Vec<String> = Vec::new();
    let mut i: usize = 0;
    while i < entries.len()
        invariant
            i <= entries@.len(),
            lines@.len() == i,
            forall|j: int| 0 <= j < i ==> #[trigger] lines@[j]@ == entry_text(entries@[j]),
        decreases entries@.len() - i,
    {
        lines.push(entry_line(&entries[i]));
        i = i + 1;
    }
    assert(texts(lines@) =~= entries@.map_values(|e: LogEntryText| entry_text(e)));
    join_texts(&lines, " ")
}

/// A row of the log list: time, outcome, the summary of the event record
/// where there is one, and the log entries, separated by ` | `.
pub open spec fn row_text(time: Seq<char>, outcome: Outcome, summary: Seq<char>, entries: Seq<char>) -> Seq<char> {
    if summary.len() > 0 {
        time + " | "@ + outcome_word(outcome) + " | "@ + summary + " | "@ + entries
    } else {
        time + " | "@ + outcome_word(outcome) + " | "@ + entries
    }
}

/// A row of the log list from its parts.
pub fn row_line(time: &str, outcome: Outcome, summary: &str, entries: &str) -> (r: String)
    ensures
        r@ == row_text(time@, outcome, summary@, entries@),
{
    let mut r = owned(time);
    append(&mut r, " | ");
    append(&mut r, outcome_label(outcome));
    append(&mut r, " | ");
    if summary.unicode_len() > 0 {
        append(&mut r, summary);
        append(&mut r, " | ");
    }
    append(&mut r, entries);
    r
}

/// The time format of the log list.
pub open spec fn list_time_format() -> Seq<char> {
    "%Y-%m-%d %H:%M:%S"@
}

/// The time format of the detail pane (with milliseconds).
pub open spec fn detail_time_format() -> Seq<char> {
    "%Y-%m-%d %H:%M:%S%.3f"@
}

/// A Unix time in seconds, written in UTC in the given format, where the
/// date library can represent it.
pub uninterp spec fn utc_time_text(secs: i64, format: Seq<char>) -> Option<Seq<char>>;

/// `DateTime::<Utc>::from_timestamp(secs, 0)` and, for a representable time,
/// `format(format).to_string()`.
///
/// Trusted: whether there is a text, and the text, are functions of the two
/// arguments (the contract names them and does not spell out the calendar);
/// second 0, the Unix epoch, is representable. Only the two formats that the
/// views use are admitted, both of which the formatter accepts (an invalid
/// format would make `to_string` panic).
#[verifier::external_body]
fn utc_time(secs: i64, format: &str) -> (r: Option<String>)
    requires
        format@ == list_time_format() || format@ == detail_time_format(),
    ensures
        r is Some ==> utc_time_text(secs, format@) == Some(r->0@),
        r is None ==> utc_time_text(secs, format@) is None,
        secs == 0 ==> r is Some,
{
    match chrono::DateTime::<chrono::Utc>::from_timestamp(secs, 0) {
        Some(t) => Some(t.format(format).to_string()),
        None => None,
    }
}

/// The time shown for `secs`: its UTC text, or that of the Unix epoch for a
/// time the date library cannot represent.
pub open spec fn shown_time(secs: i64, format: Seq<char>) -> Seq<char> {
    match utc_time_text(secs, format) {
        Some(t) => t,
        None => utc_time_text(0, format)->0,
    }
}

/// The time of an event as the log list or the detail pane shows it.
pub fn event_time(secs: i64, with_millis: bool) -> (r: String)
    ensures
        r@ == shown_time(secs, if with_millis { detail_time_format() } else { list_time_format() }),
{
    let format = if with_millis { "%Y-%m-%d %H:%M:%S%.3f" } else { "%Y-%m-%d %H:%M:%S" };
    match utc_time(secs, format) {
        Some(t) => t,
        None => match utc_time(0, format) {
            Some(t) => t,
            None => String::new(),
        },
    }
}

/// An entry of an event in the log list: `[level]` and the one-line JSON of
/// each argument, without surrounding quotes, separated by spaces.
pub open spec fn log_entry_text(e: LogEntry) -> Seq<char> {
    "["@ + e.level@ + "] "@ + joined(
        e.message@.map_values(|m: Json| trim_quotes(compact_json_text(m))),
        " "@,
    )
}

/// All entries of an event in the log list, separated by spaces.
pub open spec fn log_entries_text(entries: Seq<LogEntry>) -> Seq<char> {
    joined(entries.map_values(|e: LogEntry| log_entry_text(e)), " "@)
}

/// The texts of an event's log entries: each level and the one-line JSON of
/// each argument.
pub fn entry_texts(entries: &Vec<LogEntry>) -> (r: Vec<LogEntryText>)
    ensures
        r@.len() == entries@.len(),
        forall|i: int| 0 <= i < r@.len() ==> entry_text(#[trigger] r@[i]) == log_entry_text(entries@[i]),
{
    let mut r: Vec<LogEntryText> = Vec::new();
    let mut i: usize = 0;
    while i < entries.len()
        invariant
            i <= entries@.len(),
            r@.len() == i,
            forall|j: int| 0 <= j < i ==> entry_text(#[trigger] r@[j]) == log_entry_text(entries@[j]),
        decreases entries@.len() - i,
    {
        let e = &entries[i];
        let mut values: Vec<String> = Vec::new();
        let mut k: usize = 0;
        while k < e.message.len()
            invariant
                k <= e.message@.len(),
                values@.len() == k,
                forall|j: int| 0 <= j < k ==> #[trigger] values@[j]@ == compact_json_text(e.message@[j]),
            decreases e.message@.len() - k,
        {
            values.push(compact_json(&e.message[k]));
            k = k + 1;
        }
        let t = LogEntryText { level: owned(e.level.as_str()), values };
        assert(texts(t.values@).map_values(|v: Seq<char>| trim_quotes(v))
            =~= e.message@.map_values(|m: Json| trim_quotes(compact_json_text(m))));
        r.push(t);
        i = i + 1;
    }
    r
}

/// The row of the log list for an event, and its colour: time, outcome, the
/// summary of its event record, and its log entries.
pub fn log_row(log: &TailEventMessage) -> (r: (String, Tint))
    ensures
        r.0@ == row_text(shown_time(log.event_timestamp, list_time_format()), log.outcome,
            event_summary_of(log.event).0, log_entries_text(log.logs@)),
        r.1 == event_summary_of(log.event).1,
{
    let (summary, tint) = event_summary(&log.event);
    let time = event_time(log.event_timestamp, false);
    let entries = entry_texts(&log.logs);
    let body = entries_line(&entries);
    assert(entries@.map_values(|e: LogEntryText| entry_text(e))
        =~= log.logs@.map_values(|e: LogEntry| log_entry_text(e)));
    (row_line(time.as_str(), log.outcome, summary.as_str(), body.as_str()), tint)
}

/// A piece of text as its characters and colour.
pub open spec fn span_view(s: Span) -> (Seq<char>, Tint) {
    (s.text@, s.tint)
}

/// The pieces of a line as characters and colours.
pub open spec fn line_view(line: Seq<Span>) -> Seq<(Seq<char>, Tint)> {
    line.map_values(|s: Span| span_view(s))
}

fn span(text: String, tint: Tint) -> (r: Span)
    ensures
        r.text == text,
        r.tint == tint,
{
    Span { text, tint }
}

/// The number of events counted with a status.
pub open spec fn counts_total(c: StatusCounts) -> int {
    c.success + c.client_err + c.server_err + c.other
}

/// `s` padded with spaces on the right to at least `width` characters
/// (`{:<width}`).
pub open spec fn padded(s: Seq<char>, width: nat) -> Seq<char> {
    if s.len() >= width {
        s
    } else {
        s + Seq::new((width - s.len()) as nat, |i: int| ' ')
    }
}

/// The length of the bar of a class with `count` events among `total`: its
/// share of 50 cells, rounded down, but at least one cell.
pub open spec fn bar_width(count: nat, total: nat) -> nat {
    let w = count * 50 / total;
    if w >= 1 { w } else { 1 }
}

/// A bar of `n` full blocks.
pub open spec fn bar(n: nat) -> Seq<char> {
    Seq::new(n, |i: int| '█')
}

/// The counts line of the status chart.
pub open spec fn counts_line(c: StatusCounts) -> Seq<(Seq<char>, Tint)> {
    seq![
        ("2xx: "@ + padded(decimal(c.success as nat), 5), Tint::Green),
        (" | "@, Tint::Plain),
        ("4xx: "@ + padded(decimal(c.client_err as nat), 5), Tint::Yellow),
        (" | "@, Tint::Plain),
        ("5xx: "@ + padded(decimal(c.server_err as nat), 5), Tint::Red),
        (" | "@, Tint::Plain),
        ("Other: "@ + padded(decimal(c.other as nat), 5), Tint::Gray),
        (" | Total: "@ + decimal(counts_total(c) as nat), Tint::Plain),
    ]
}

/// The bar line of the status chart.
pub open spec fn bars_line(c: StatusCounts) -> Seq<(Seq<char>, Tint)> {
    let t = counts_total(c) as nat;
    seq![
        (bar(bar_width(c.success as nat, t)), Tint::Green),
        (bar(bar_width(c.client_err as nat, t)), Tint::Yellow),
        (bar(bar_width(c.server_err as nat, t)), Tint::Red),
        (bar(bar_width(c.other as nat, t)), Tint::Gray),
    ]
}

/// Whether the chart's arithmetic fits in machine words.
pub open spec fn chart_fits(c: StatusCounts) -> bool {
    &&& counts_total(c) <= usize::MAX
    &&& c.success * 50 <= usize::MAX
    &&& c.client_err * 50 <= usize::MAX
    &&& c.server_err * 50 <= usize::MAX
    &&& c.other * 50 <= usize::MAX
}

fn padded_text(s: String, width: usize) -> (r: String)
    ensures
        r@ == padded(s@, width as nat),
{
    let mut r = s;
    let n = r.as_str().unicode_len();
    let ghost start = r@;
    if n < width {
        let mut k: usize = n;
        while k < width
            invariant
                n == start.len(),
                n <= k <= width,
                r@ == start + Seq::new((k - n) as nat, |i: int| ' '),
            decreases width - k,
        {
            push_char(&mut r, ' ');
            assert(r@ =~= start + Seq::new((k + 1 - n) as nat, |i: int| ' '));
            k = k + 1;
        }
    }
    r
}

fn bar_text(n: usize) -> (r: String)
    ensures
        r@ == bar(n as nat),
{
    let mut r = String::new();
    let mut k: usize = 0;
    while k < n
        invariant
            k <= n,
            r@ == bar(k as nat),
        decreases n - k,
    {
        push_char(&mut r, '█');
        assert(r@ =~= bar((k + 1) as nat));
        k = k + 1;
    }
    r
}

/// The length of the bar of a class with `count` events among `total`.
pub fn bar_length(count: usize, total: usize) -> (r: usize)
    requires
        total > 0,
        count * 50 <= usize::MAX,
    ensures
        r == bar_width(count as nat, total as nat),
{
    let w = count * 50 / total;
    if w >= 1 { w } else { 1 }
}

fn labelled_count(label: &str, count: usize) -> (r: String)
    ensures
        r@ == label@ + padded(decimal(count as nat), 5),
{
    let mut r = owned(label);
    let digits = padded_text(u64_text(count as u64), 5);
    append(&mut r, digits.as_str());
    r
}

/// The lines of the status chart: the counts and their bars, or a note that
/// nothing was counted yet.
pub fn chart_lines(c: &StatusCounts) -> (r: Vec<Vec<Span>>)
    requires
        chart_fits(*c),
    ensures
        counts_total(*c) > 0 ==> r@.len() == 2 && line_view(r@[0]@) == counts_line(*c)
            && line_view(r@[1]@) == bars_line(*c),
        counts_total(*c) == 0 ==> r@.len() == 1
            && line_view(r@[0]@) == seq![("No requests recorded yet"@, Tint::Plain)],
{
    let total = c.success + c.client_err + c.server_err + c.other;
    let mut lines: Vec<Vec<Span>> = Vec::new();
    if total > 0 {
        let mut first: Vec<Span> = Vec::new();
        first.push(span(labelled_count("2xx: ", c.success), Tint::Green));
        first.push(span(owned(" | "), Tint::Plain));
        first.push(span(labelled_count("4xx: ", c.client_err), Tint::Yellow));
        first.push(span(owned(" | "), Tint::Plain));
        first.push(span(labelled_count("5xx: ", c.server_err), Tint::Red));
        first.push(span(owned(" | "), Tint::Plain));
        first.push(span(labelled_count("Other: ", c.other), Tint::Gray));
        let mut tail = owned(" | Total: ");
        let digits = u64_text(total as u64);
        append(&mut tail, digits.as_str());
        first.push(span(tail, Tint::Plain));
        assert(line_view(first@) =~= counts_line(*c));
        let mut second: Vec<Span> = Vec::new();
        second.push(span(bar_text(bar_length(c.success, total)), Tint::Green));
        second.push(span(bar_text(bar_length(c.client_err, total)), Tint::Yellow));
        second.push(span(bar_text(bar_length(c.server_err, total)), Tint::Red));
        second.push(span(bar_text(bar_length(c.other, total)), Tint::Gray));
        assert(line_view(second@) =~= bars_line(*c));
        lines.push(first);
        lines.push(second);
    } else {
        let mut only: Vec<Span> = Vec::new();
        only.push(span(owned("No requests recorded yet"), Tint::Plain));
        assert(line_view(only@) =~= seq![("No requests recorded yet"@, Tint::Plain)]);
        lines.push(only);
    }
    lines
}

/// Every bar of the chart is between one and fifty cells long.
pub proof fn lemma_bar_width_bounds(count: nat, total: nat)
    requires
        0 < total,
        count <= total,
    ensures
        1 <= bar_width(count, total) <= 50,
{
    assert(count * 50 <= total * 50) by (nonlinear_arith)
        requires count <= total;
    assert(count * 50 / total <= 50) by (nonlinear_arith)
        requires count * 50 <= total * 50, 0 < total;
}

/// The Worker named in the status bar: the chosen one, or `unknown`.
pub open spec fn worker_word(w: Option<String>) -> Seq<char> {
    match w {
        Some(name) => name@,
        None => "unknown"@,
    }
}

/// The pieces of the status bar: the screen, the chosen Worker while
/// connecting or connected, and the active filter.
pub open spec fn status_bar_view(app: App) -> Seq<(Seq<char>, Tint)> {
    let screen = match app.state {
        AppState::SelectingWorker(_) => seq![("Status: "@, Tint::Plain), ("Selecting worker"@, Tint::Yellow)],
        AppState::Connecting => seq![
            ("Status: "@, Tint::Plain),
            ("Connecting"@, Tint::Yellow),
            (" to worker "@, Tint::Plain),
            (worker_word(app.selected_worker), Tint::Cyan),
        ],
        AppState::Viewing => seq![
            ("Status: "@, Tint::Plain),
            ("Connected"@, Tint::Green),
            (" to worker "@, Tint::Plain),
            (worker_word(app.selected_worker), Tint::Cyan),
        ],
    };
    match app.active_filter {
        Some(f) => screen + seq![(" | Filter: "@, Tint::Plain), (filter_word(f), Tint::Yellow)],
        None => screen,
    }
}

/// The pieces of the status bar.
pub fn status_bar(app: &App) -> (r: Vec<Span>)
    ensures
        line_view(r@) == status_bar_view(*app),
{
    let worker = match &app.selected_worker {
        Some(name) => owned(name.as_str()),
        None => owned("unknown"),
    };
    let mut spans: Vec<Span> = Vec::new();
    spans.push(span(owned("Status: "), Tint::Plain));
    match app.state {
        AppState::SelectingWorker(_) => {
            spans.push(span(owned("Selecting worker"), Tint::Yellow));
        },
        AppState::Connecting => {
            spans.push(span(owned("Connecting"), Tint::Yellow));
            spans.push(span(owned(" to worker "), Tint::Plain));
            spans.push(span(worker, Tint::Cyan));
        },
        AppState::Viewing => {
            spans.push(span(owned("Connected"), Tint::Green));
            spans.push(span(owned(" to worker "), Tint::Plain));
            spans.push(span(worker, Tint::Cyan));
        },
    }
    if let Some(f) = app.active_filter {
        spans.push(span(owned(" | Filter: "), Tint::Plain));
        spans.push(span(owned(filter_label(f)), Tint::Yellow));
    }
    assert(line_view(spans@) =~= status_bar_view(*app));
    spans
}

/// The title of the log list: the active filter in brackets, and a note
/// that the list has the focus where it has.
pub open spec fn logs_title(detail_focused: bool, filter: Option<StatusFilter>) -> Seq<char> {
    let named = match filter {
        Some(f) => "Logs ["@ + filter_word(f) + "]"@,
        None => "Logs"@,
    };
    if detail_focused { named } else { named + " (focused)"@ }
}

/// The titles of the log list and the detail pane: the log list names the
/// active filter, and the pane with the focus says so.
pub fn pane_titles(detail_focused: bool, filter: Option<StatusFilter>) -> (r: (String, &'static str))
    ensures
        r.0@ == logs_title(detail_focused, filter),
        !detail_focused ==> r.1@ == "Details"@,
        detail_focused ==> r.1@ == "Details (focused)"@,
{
    let mut title = match filter {
        Some(f) => {
            let mut t = owned("Logs [");
            append(&mut t, filter_label(f));
            append(&mut t, "]");
            t
        },
        None => owned("Logs"),
    };
    if detail_focused {
        (title, "Details (focused)")
    } else {
        append(&mut title, " (focused)");
        (title, "Details")
    }
}

/// The positions of the events that the log list shows, in its order: those
/// of the filtered list that name an event.
pub open spec fn visible_positions(filtered: Seq<usize>, n: nat) -> Seq<usize> {
    filtered.filter(|i: usize| i < n)
}

/// The positions of the events that the log list shows.
pub fn visible_events(app: &App) -> (r: Vec<usize>)
    ensures
        r@ == visible_positions(app.filtered_logs@, app.logs@.len()),
{
    let n = app.logs.len();
    let mut r: Vec<usize> = Vec::new();
    let mut k: usize = 0;
    while k < app.filtered_logs.len()
        invariant
            n == app.logs@.len(),
            k <= app.filtered_logs@.len(),
            r@ == visible_positions(app.filtered_logs@.take(k as int), n as nat),
        decreases app.filtered_logs@.len() - k,
    {
        let i = app.filtered_logs[k];
        proof {
            let t = app.filtered_logs@.take(k + 1);
            assert(t.drop_last() =~= app.filtered_logs@.take(k as int));
            reveal_with_fuel(Seq::<_>::filter, 1);
        }
        if i < n {
            r.push(i);
        }
        k = k + 1;
    }
    assert(app.filtered_logs@.take(app.filtered_logs@.len() as int) =~= app.filtered_logs@);
    r
}

/// The event that the detail pane shows: the one in the highlighted row of
/// the log list, where the pane is open and that row names an event.
pub open spec fn detail_target_of(app: App) -> Option<usize> {
    match app.log_state@ {
        Some(s) => if app.show_details && s < app.filtered_logs@.len()
            && app.filtered_logs@[s as int] < app.logs@.len() {
            Some(app.filtered_logs@[s as int])
        } else {
            None
        },
        None => None,
    }
}

/// The event that the detail pane shows.
pub fn detail_target(app: &App) -> (r: Option<usize>)
    ensures
        r == detail_target_of(*app),
{
    if !app.show_details {
        return None;
    }
    match app.log_state.selected() {
        Some(s) => {
            if s < app.filtered_logs.len() && app.filtered_logs[s] < app.logs.len() {
                Some(app.filtered_logs[s])
            } else {
                None
            }
        },
        None => None,
    }
}

/// A block of text with each line moved right by eight spaces.
pub open spec fn indented_block(text: Seq<char>) -> Seq<char> {
    joined(lines_of(text).map_values(|l: Seq<char>| "        "@ + l), "\n"@)
}

/// A block of text with each line moved right by eight spaces.
pub fn indent_block(text: &str) -> (r: String)
    ensures
        r@ == indented_block(text@),
{
    let lines = split_lines(text);
    let mut moved: Vec<String> = Vec::new();
    let mut i: usize = 0;
    while i < lines.len()
        invariant
            texts(lines@) == lines_of(text@),
            i <= lines@.len(),
            moved@.len() == i,
            forall|j: int| 0 <= j < i ==> #[trigger] moved@[j]@ == "        "@ + lines@[j]@,
        decreases lines@.len() - i,
    {
        let mut l = owned("        ");
        append(&mut l, lines[i].as_str());
        moved.push(l);
        i = i + 1;
    }
    assert(texts(moved@) =~= lines_of(text@).map_values(|l: Seq<char>| "        "@ + l));
    join_texts(&moved, "\n")
}

/// The name of an outcome in the detail pane (as the event stream's type
/// names its variants).
pub open spec fn outcome_name(o: Outcome) -> Seq<char> {
    match o {
        Outcome::Okay => "Ok"@,
        Outcome::Canceled => "Canceled"@,
        Outcome::Exception => "Exception"@,
        Outcome::ExceededCpu => "ExceededCpu"@,
        Outcome::ExceededMemory => "ExceededMemory"@,
        Outcome::Unknown => "Unknown"@,
    }
}

fn outcome_name_text(o: Outcome) -> (r: &'static str)
    ensures
        r@ == outcome_name(o),
{
    match o {
        Outcome::Okay => "Ok",
        Outcome::Canceled => "Canceled",
        Outcome::Exception => "Exception",
        Outcome::ExceededCpu => "ExceededCpu",
        Outcome::ExceededMemory => "ExceededMemory",
        Outcome::Unknown => "Unknown",
    }
}

/// One level of the event record's layout: four no-break spaces.
pub open spec fn layout_step() -> Seq<char> {
    "\u{a0}\u{a0}\u{a0}\u{a0}"@
}

/// A member value written on its key's line: a string between quotes as it
/// is, anything else as its one-line JSON.
pub open spec fn leaf_text(v: Json) -> Seq<char> {
    match v {
        Json::String(s) => "\""@ + s@ + "\""@,
        _ => compact_json_text(v),
    }
}

/// The lines of the first `k` members of the object `j` in the layout, at
/// indentation `indent`: a nested object opens on its key's line, follows in
/// full one level deeper and is closed on a line of its own; any other value
/// stands on its key's line.
pub open spec fn member_lines(j: Json, k: nat, indent: Seq<char>) -> Seq<Seq<char>>
    decreases j, 0nat, k,
{
    match j {
        Json::Object(v) => if 0 < k && k <= v@.len() {
            let key = v@[k - 1].0;
            let val = v@[k - 1].1;
            let inner = indent + layout_step();
            let mine: Seq<Seq<char>> = match val {
                Json::Object(_) => {
                    proof {
                        assert(decreases_to!(j => v));
                        assert(decreases_to!(v => v@));
                        assert(decreases_to!(v@ => v@[k - 1]));
                        assert(decreases_to!(v@[k - 1] => val));
                    }
                    seq![
                        inner + "\""@ + key@ + "\": {"@,
                        layout(val, inner),
                        inner + "},"@,
                    ]
                },
                _ => seq![inner + "\""@ + key@ + "\": "@ + leaf_text(val) + ","@],
            };
            member_lines(j, (k - 1) as nat, indent) + mine
        } else {
            Seq::empty()
        },
        _ => Seq::empty(),
    }
}

/// The layout of an event record in the detail pane at indentation
/// `indent`: an object as an opening brace, its members and a closing brace,
/// one per line; any other value as its one-line JSON.
pub open spec fn layout(j: Json, indent: Seq<char>) -> Seq<char>
    decreases j, 1nat, 0nat,
{
    match j {
        Json::Object(v) => joined(
            seq![indent + "{"@] + member_lines(j, v@.len(), indent) + seq![indent + "}"@],
            "\n"@,
        ),
        _ => compact_json_text(j),
    }
}

fn layout_at(j: &Json, indent: &str) -> (r: String)
    ensures
        r@ == layout(*j, indent@),
    decreases j,
{
    match j {
        Json::Object(v) => {
            let mut inner = owned(indent);
            append(&mut inner, "\u{a0}\u{a0}\u{a0}\u{a0}");
            let mut lines: Vec<String> = Vec::new();
            let mut open = owned(indent);
            append(&mut open, "{");
            lines.push(open);
            let mut i: usize = 0;
            while i < v.len()
                invariant
                    *j == Json::Object(*v),
                    inner@ == indent@ + layout_step(),
                    i <= v@.len(),
                    texts(lines@) == seq![indent@ + "{"@] + member_lines(*j, i as nat, indent@),
                decreases v@.len() - i,
            {
                let key = &v[i].0;
                let val = &v[i].1;
                let ghost before = texts(lines@);
                match val {
                    Json::Object(_) => {
                        let mut first = owned(inner.as_str());
                        append(&mut first, "\"");
                        append(&mut first, key.as_str());
                        append(&mut first, "\": {");
                        proof {
                            assert(decreases_to!(*j => *v));
                            assert(decreases_to!(*v => v@));
                            assert(decreases_to!(v@ => v@[i as int]));
                            assert(decreases_to!(v@[i as int] => *val));
                        }
                        let nested = layout_at(val, inner.as_str());
                        let mut last = owned(inner.as_str());
                        append(&mut last, "},");
                        let ghost mine = seq![first@, nested@, last@];
                        lines.push(first);
                        lines.push(nested);
                        lines.push(last);
                        assert(texts(lines@) =~= before + mine);
                        assert(member_lines(*j, (i + 1) as nat, indent@) == member_lines(*j, i as nat, indent@) + mine);
                    },
                    _ => {
                        let leaf = leaf_line(val);
                        let mut line = owned(inner.as_str());
                        append(&mut line, "\"");
                        append(&mut line, key.as_str());
                        append(&mut line, "\": ");
                        append(&mut line, leaf.as_str());
                        append(&mut line, ",");
                        let ghost mine = seq![line@];
                        lines.push(line);
                        assert(texts(lines@) =~= before + mine);
                        assert(member_lines(*j, (i + 1) as nat, indent@) == member_lines(*j, i as nat, indent@) + mine);
                    },
                }
                assert(texts(lines@) =~= seq![indent@ + "{"@] + member_lines(*j, (i + 1) as nat, indent@));
                i = i + 1;
            }
            let mut close = owned(indent);
            append(&mut close, "}");
            let ghost before_close = texts(lines@);
            lines.push(close);
            assert(texts(lines@) =~= before_close.push(indent@ + "}"@));
            assert(texts(lines@) =~= seq![indent@ + "{"@] + member_lines(*j, v@.len(), indent@) + seq![indent@ + "}"@]);
            join_texts(&lines, "\n")
        },
        _ => compact_json(j),
    }
}

fn leaf_line(v: &Json) -> (r: String)
    ensures
        r@ == leaf_text(*v),
{
    match v {
        Json::String(s) => {
            let mut r = owned("\"");
            append(&mut r, s.as_str());
            append(&mut r, "\"");
            r
        },
        _ => compact_json(v),
    }
}

/// The layout of an event record in the detail pane, one level in.
pub fn event_layout(event: &Json) -> (r: String)
    ensures
        r@ == layout(*event, layout_step()),
{
    layout_at(event, "\u{a0}\u{a0}\u{a0}\u{a0}")
}

/// The pretty JSON of a value moved right by eight spaces, where it can be
/// printed; nothing otherwise.
pub open spec fn pretty_block(m: Json) -> Seq<Seq<char>> {
    match pretty_json_text(m) {
        Some(t) => seq![indented_block(t)],
        None => Seq::empty(),
    }
}

/// The detail lines of the arguments of a log entry.
pub open spec fn values_detail(ms: Seq<Json>) -> Seq<Seq<char>>
    decreases ms.len(),
{
    if ms.len() == 0 {
        Seq::empty()
    } else {
        values_detail(ms.drop_last()) + pretty_block(ms.last())
    }
}

/// Every argument of a log entry that can be printed gets a block of its own
/// under the entry, in order: its pretty JSON, each line moved right by eight
/// spaces. Where every argument can be printed there are as many blocks as
/// arguments, the `i`-th block being the `i`-th argument's.
pub proof fn lemma_values_detail_blocks(ms: Seq<Json>)
    ensures
        values_detail(ms) == ms.filter(|m: Json| pretty_json_text(m) is Some).map_values(
            |m: Json| indented_block(pretty_json_text(m).unwrap()),
        ),
        (forall|i: int| 0 <= i < ms.len() ==> #[trigger] pretty_json_text(ms[i]) is Some) ==> {
            &&& values_detail(ms).len() == ms.len()
            &&& forall|i: int| 0 <= i < ms.len()
                ==> #[trigger] values_detail(ms)[i] == indented_block(pretty_json_text(ms[i]).unwrap())
        },
    decreases ms.len(),
{
    let printable = |m: Json| pretty_json_text(m) is Some;
    let block = |m: Json| indented_block(pretty_json_text(m).unwrap());
    reveal(Seq::filter);
    if ms.len() == 0 {
        assert(ms.filter(printable).map_values(block) =~= Seq::<Seq<char>>::empty());
    } else {
        let p = ms.drop_last();
        let x = ms.last();
        lemma_values_detail_blocks(p);
        assert(ms.filter(printable) == if printable(x) { p.filter(printable).push(x) } else { p.filter(printable) });
        if printable(x) {
            assert(pretty_block(x) == seq![block(x)]);
            assert(p.filter(printable).push(x).map_values(block)
                =~= p.filter(printable).map_values(block) + seq![block(x)]);
        } else {
            assert(pretty_block(x) =~= Seq::<Seq<char>>::empty());
            assert(values_detail(ms) =~= values_detail(p));
        }
        if forall|i: int| 0 <= i < ms.len() ==> #[trigger] pretty_json_text(ms[i]) is Some {
            assert forall|i: int| 0 <= i < p.len() implies #[trigger] pretty_json_text(p[i]) is Some by {
                assert(p[i] == ms[i]);
            }
            assert(pretty_json_text(ms[ms.len() - 1]) is Some);
            assert forall|i: int| 0 <= i < ms.len()
                implies #[trigger] values_detail(ms)[i] == indented_block(pretty_json_text(ms[i]).unwrap()) by {
                if i < p.len() {
                    assert(p[i] == ms[i]);
                    assert(values_detail(ms)[i] == values_detail(p)[i]);
                } else {
                    assert(values_detail(ms)[i] == pretty_block(x)[0]);
                }
            }
        }
    }
}

/// The detail lines of the log entries: each level, then its arguments.
pub open spec fn entries_detail(es: Seq<LogEntry>) -> Seq<Seq<char>>
    decreases es.len(),
{
    if es.len() == 0 {
        Seq::empty()
    } else {
        entries_detail(es.drop_last()) + seq!["    ["@ + es.last().level@ + "]"@]
            + values_detail(es.last().message@)
    }
}

/// The detail lines of the exceptions: each name, then its message.
pub open spec fn exceptions_detail(xs: Seq<Exception>) -> Seq<Seq<char>>
    decreases xs.len(),
{
    if xs.len() == 0 {
        Seq::empty()
    } else {
        exceptions_detail(xs.drop_last()) + seq!["    "@ + xs.last().name@ + ": "@]
            + pretty_block(xs.last().message)
    }
}

/// The pieces of the detail pane's text for an event: time, outcome,
/// script, the layout of its event record, its log entries and its
/// exceptions.
pub open spec fn detail_parts(log: TailEventMessage) -> Seq<Seq<char>> {
    let head = seq![
        "Timestamp: "@ + shown_time(log.event_timestamp, detail_time_format()),
        "Outcome: "@ + outcome_name(log.outcome),
    ];
    let script = match log.script_name {
        Some(name) => seq!["Script: "@ + name@],
        None => Seq::empty(),
    };
    let event = match log.event {
        Some(e) => seq!["\nEvent Details:\n"@, layout(e, layout_step()), "\n"@],
        None => Seq::empty(),
    };
    let entries = if log.logs@.len() > 0 {
        seq!["\nLogs:\n"@] + entries_detail(log.logs@)
    } else {
        Seq::empty()
    };
    let exceptions = if log.exceptions@.len() > 0 {
        seq!["\nExceptions:\n"@] + exceptions_detail(log.exceptions@)
    } else {
        Seq::empty()
    };
    head + script + event + entries + exceptions
}

fn push_pretty(parts: &mut Vec<String>, m: &Json)
    ensures
        texts(final(parts)@) == texts(old(parts)@) + pretty_block(*m),
{
    if let Some(t) = pretty_json(m) {
        let ghost before = texts(parts@);
        parts.push(indent_block(t.as_str()));
        assert(texts(parts@) =~= before + pretty_block(*m));
    } else {
        assert(texts(parts@) =~= texts(parts@) + pretty_block(*m));
    }
}

fn prefixed(prefix: &str, text: &str, suffix: &str) -> (r: String)
    ensures
        r@ == prefix@ + text@ + suffix@,
{
    let mut r = owned(prefix);
    append(&mut r, text);
    append(&mut r, suffix);
    r
}

/// The text of the detail pane for an event: its pieces joined by line feeds.
pub fn detail_text(log: &TailEventMessage) -> (r: String)
    ensures
        r@ == joined(detail_parts(*log), "\n"@),
{
    let mut parts: Vec<String> = Vec::new();
    let time = event_time(log.event_timestamp, true);
    let mut stamp = owned("Timestamp: ");
    append(&mut stamp, time.as_str());
    parts.push(stamp);
    let mut outcome = owned("Outcome: ");
    append(&mut outcome, outcome_name_text(log.outcome));
    parts.push(outcome);
    if let Some(name) = &log.script_name {
        let mut line = owned("Script: ");
        append(&mut line, name.as_str());
        parts.push(line);
    }
    let ghost head = seq![
        "Timestamp: "@ + shown_time(log.event_timestamp, detail_time_format()),
        "Outcome: "@ + outcome_name(log.outcome),
    ];
    let ghost script: Seq<Seq<char>> = match &log.script_name {
        Some(name) => seq!["Script: "@ + name@],
        None => Seq::empty(),
    };
    let ghost event: Seq<Seq<char>> = match &log.event {
        Some(e) => seq!["\nEvent Details:\n"@, layout(*e, layout_step()), "\n"@],
        None => Seq::empty(),
    };
    assert(texts(parts@) =~= head + script);
    if let Some(e) = &log.event {
        parts.push(owned("\nEvent Details:\n"));
        parts.push(event_layout(e));
        parts.push(owned("\n"));
    }
    let ghost before_entries = texts(parts@);
    assert(before_entries =~= head + script + event);
    if log.logs.len() > 0 {
        parts.push(owned("\nLogs:\n"));
        let mut k: usize = 0;
        while k < log.logs.len()
            invariant
                k <= log.logs@.len(),
                texts(parts@) == before_entries + seq!["\nLogs:\n"@] + entries_detail(log.logs@.take(k as int)),
            decreases log.logs@.len() - k,
        {
            let entry = &log.logs[k];
            let ghost start = texts(parts@);
            parts.push(prefixed("    [", entry.level.as_str(), "]"));
            let mut j: usize = 0;
            while j < entry.message.len()
                invariant
                    j <= entry.message@.len(),
                    texts(parts@) == start + seq!["    ["@ + entry.level@ + "]"@]
                        + values_detail(entry.message@.take(j as int)),
                decreases entry.message@.len() - j,
            {
                push_pretty(&mut parts, &entry.message[j]);
                proof {
                    let t = entry.message@.take(j + 1);
                    assert(t.drop_last() =~= entry.message@.take(j as int));
                    assert(t.last() == entry.message@[j as int]);
                }
                j = j + 1;
            }
            proof {
                assert(entry.message@.take(entry.message@.len() as int) =~= entry.message@);
                let t = log.logs@.take(k + 1);
                assert(t.drop_last() =~= log.logs@.take(k as int));
                assert(t.last() == log.logs@[k as int]);
                assert(texts(parts@) =~= before_entries + seq!["\nLogs:\n"@] + entries_detail(t));
            }
            k = k + 1;
        }
        proof {
            assert(log.logs@.take(log.logs@.len() as int) =~= log.logs@);
        }
    }
    let ghost before_exceptions = texts(parts@);
    let ghost entries: Seq<Seq<char>> = if log.logs@.len() > 0 {
        seq!["\nLogs:\n"@] + entries_detail(log.logs@)
    } else {
        Seq::empty()
    };
    assert(before_exceptions =~= head + script + event + entries);
    if log.exceptions.len() > 0 {
        parts.push(owned("\nExceptions:\n"));
        let mut k: usize = 0;
        while k < log.exceptions.len()
            invariant
                k <= log.exceptions@.len(),
                texts(parts@) == before_exceptions + seq!["\nExceptions:\n"@]
                    + exceptions_detail(log.exceptions@.take(k as int)),
            decreases log.exceptions@.len() - k,
        {
            let x = &log.exceptions[k];
            let ghost start = texts(parts@);
            let a = prefixed("    ", x.name.as_str(), ": ");
            let ghost a_text = a@;
            parts.push(a);
            assert(texts(parts@) =~= start + seq![a_text]);
            push_pretty(&mut parts, &x.message);
            proof {
                let t = log.exceptions@.take(k + 1);
                assert(t.drop_last() =~= log.exceptions@.take(k as int));
                assert(t.last() == log.exceptions@[k as int]);
                assert(texts(parts@) =~= before_exceptions + seq!["\nExceptions:\n"@] + exceptions_detail(t));
            }
            k = k + 1;
        }
        proof {
            assert(log.exceptions@.take(log.exceptions@.len() as int) =~= log.exceptions@);
        }
    }
    let ghost exceptions: Seq<Seq<char>> = if log.exceptions@.len() > 0 {
        seq!["\nExceptions:\n"@] + exceptions_detail(log.exceptions@)
    } else {
        Seq::empty()
    };
    assert(texts(parts@) =~= head + script + event + entries + exceptions);
    assert(texts(parts@) =~= detail_parts(*log));
    join_texts(&parts, "\n")
}

/// On the stream screen, Enter on a highlighted row opens the detail pane on
/// that row's event.
pub proof fn lemma_enter_shows_highlighted_event(old: App, new: App, s: usize)
    requires
        App::key_handled(old, crate::app::Key::Enter, new),
        !(old.state is SelectingWorker),
        !old.show_details,
        old.log_state@ == Some(s),
        s < old.filtered_logs@.len(),
        old.filtered_logs@[s as int] < old.logs@.len(),
    ensures
        detail_target_of(new) == Some(old.filtered_logs@[s as int]),
        new.logs == old.logs,
{
}

/// The scroll offset that shows the last line of the detail pane's text at
/// the top (none where the pane shows no event).
pub open spec fn end_scroll(app: App) -> u16 {
    match detail_target_of(app) {
        Some(i) => {
            let n = lines_of(joined(detail_parts(app.logs@[i as int]), "\n"@)).len();
            if n == 0 {
                0
            } else if n - 1 > u16::MAX {
                u16::MAX
            } else {
                (n - 1) as u16
            }
        },
        None => 0,
    }
}

/// The scroll offset that shows the last line of the detail pane's text.
pub fn detail_end_scroll(app: &App) -> (r: u16)
    ensures
        r == end_scroll(*app),
{
    match detail_target(app) {
        Some(i) => {
            let text = detail_text(&app.logs[i]);
            let n = split_lines(text.as_str()).len();
            if n == 0 {
                0
            } else if n - 1 > 65535 {
                65535
            } else {
                (n - 1) as u16
            }
        },
        None => 0,
    }
}

} // verus!
