//! The data that the log stream and the Cloudflare API deliver, and the
//! output formats of the command line.

use vstd::prelude::*;
use crate::json::Json;
use crate::text::{append, owned, str_eq};

verus! {

/// How a Worker invocation ended.
#[derive(Debug, Clone, Copy, PartialEq, Eq, Structural)]
pub enum Outcome {
    /// The invocation finished normally (`"ok"` on the wire).
    Okay,
    Canceled,
    Exception,
    ExceededCpu,
    ExceededMemory,
    Unknown,
}

/// An exception that a Worker invocation raised.
#[derive(Debug)]
pub struct Exception {
    pub name: String,
    pub message: Json,
    pub timestamp: i64,
}

/// One `console` call of a Worker: its arguments, its level and when it ran.
#[derive(Debug)]
pub struct LogEntry {
    pub message: Vec<Json>,
    pub level: String,
    pub timestamp: i64,
}

/// One event of the tail stream: a finished Worker invocation with what it
/// logged.
#[derive(Debug)]
pub struct TailEventMessage {
    pub outcome: Outcome,
    pub script_name: Option<String>,
    pub exceptions: Vec<Exception>,
    pub logs: Vec<LogEntry>,
    pub event_timestamp: i64,
    pub event: Option<Json>,
    pub status: Option<u16>,
}

/// What the API answers when a tail session is created: the session's id,
/// the URL of its event stream and when it expires.
#[derive(Debug)]
pub struct TailCreationResponse {
    pub id: String,
    pub url: String,
    pub expires_at: String,
}

/// The body of a request that creates a tail session.
#[derive(Debug)]
pub struct TailRequest {
    pub filters: Vec<TailFilter>,
}

/// A server-side filter of a tail session. The sampling rate is kept in
/// millionths of the events: `1_000_000` samples every event.
#[derive(Debug)]
pub enum TailFilter {
    SamplingRate { parts_per_million: u32 },
    Outcome { outcome: Vec<String> },
    Method { method: Vec<String> },
    Query { query: String },
}

/// The envelope of every Cloudflare API answer.
#[derive(Debug)]
pub struct CloudflareResponse<T> {
    pub result: T,
    pub success: bool,
    pub errors: Vec<CloudflareError>,
}

/// One error that the Cloudflare API reports.
#[derive(Debug)]
pub struct CloudflareError {
    pub code: i32,
    pub message: String,
}

/// A Worker script of the account.
#[derive(Debug)]
pub struct WorkerScript {
    pub id: String,
    pub etag: String,
    pub script: Option<String>,
    pub size: Option<u64>,
    pub modified_on: String,
    pub created_on: String,
    pub usage_model: Option<String>,
    pub compatibility_date: Option<String>,
    pub compatibility_flags: Option<Vec<String>>,
}

/// The answer to a listing of the account's Worker scripts.
#[derive(Debug)]
pub struct WorkerScriptResponse {
    pub result: Vec<WorkerScript>,
    pub success: bool,
    pub errors: Vec<CloudflareError>,
    pub messages: Vec<String>,
}

/// How log events are written out.
#[derive(Debug, Clone, Copy, PartialEq, Eq, Structural)]
pub enum OutputFormat {
    /// Coloured, for people.
    Pretty,
    /// Raw JSON, for programs.
    Json,
    /// One line per event, for grep and awk.
    Compact,
}

/// The lower-case form of a text, as `str::to_lowercase` maps it (Unicode
/// case mapping).
pub uninterp spec fn lowercase(s: Seq<char>) -> Seq<char>;

/// `str::to_lowercase`.
///
/// Trusted: the result is the lower-case mapping of the argument's characters,
/// a function of the argument alone (the contract names it and says no more).
#[verifier::external_body]
fn lowercase_text(s: &str) -> (r: String)
    ensures
        r@ == lowercase(s@),
{
    s.to_lowercase()
}

/// The output format that a lower-case name stands for.
pub open spec fn output_format_named(name: Seq<char>) -> Option<OutputFormat> {
    if name == "pretty"@ {
        Some(OutputFormat::Pretty)
    } else if name == "json"@ {
        Some(OutputFormat::Json)
    } else if name == "compact"@ {
        Some(OutputFormat::Compact)
    } else {
        None
    }
}

/// The message for a name that is no output format.
pub open spec fn unknown_format_message(name: Seq<char>) -> Seq<char> {
    "Unknown output format: "@ + name + ". Valid formats are: pretty, json, compact"@
}

/// Picks the output format from the lower-case form `lower` of the name
/// `given`, or says that `given` names none.
pub fn output_format_from_lowercase(lower: &str, given: &str) -> (r: Result<OutputFormat, String>)
    ensures
        match r {
            Ok(f) => output_format_named(lower@) == Some(f),
            Err(e) => output_format_named(lower@) is None && e@ == unknown_format_message(given@),
        },
{
    if str_eq(lower, "pretty") {
        Ok(OutputFormat::Pretty)
    } else if str_eq(lower, "json") {
        Ok(OutputFormat::Json)
    } else if str_eq(lower, "compact") {
        Ok(OutputFormat::Compact)
    } else {
        let mut e = owned("Unknown output format: ");
        append(&mut e, given);
        append(&mut e, ". Valid formats are: pretty, json, compact");
        Err(e)
    }
}

/// Reads an output format from its name, in any letter case.
pub fn parse_output_format(s: &str) -> (r: Result<OutputFormat, String>)
    ensures
        match r {
            Ok(f) => output_format_named(lowercase(s@)) == Some(f),
            Err(e) => output_format_named(lowercase(s@)) is None && e@ == unknown_format_message(s@),
        },
{
    let lower = lowercase_text(s);
    output_format_from_lowercase(lower.as_str(), s)
}

impl std::str::FromStr for OutputFormat {
    type Err = String;

    fn from_str(s: &str) -> (r: Result<OutputFormat, String>)
        ensures
            match r {
                Ok(f) => output_format_named(lowercase(s@)) == Some(f),
                Err(e) => output_format_named(lowercase(s@)) is None && e@ == unknown_format_message(s@),
            },
    {
        parse_output_format(s)
    }
}

/// A log entry that the viewer itself makes: the message as its one argument.
pub open spec fn is_own_log_entry(e: LogEntry, message: Seq<char>, level: Seq<char>, timestamp: i64) -> bool {
    &&& e.message@.len() == 1
    &&& e.message@[0] matches Json::String(m) && m@ == message
    &&& e.level@ == level
    &&& e.timestamp == timestamp
}

/// Makes a log entry of the viewer's own, stamped with `timestamp` (seconds
/// since the Unix epoch).
pub fn create_log_entry(message: String, level: &str, timestamp: i64) -> (e: LogEntry)
    ensures
        is_own_log_entry(e, message@, level@, timestamp),
{
    let mut parts: Vec<Json> = Vec::new();
    parts.push(Json::String(message));
    LogEntry { message: parts, level: owned(level), timestamp }
}

/// Wraps a log entry in a successful event of its own, stamped with the
/// entry's time.
pub fn create_tail_event(log_entry: LogEntry) -> (ev: TailEventMessage)
    ensures
        ev.outcome == Outcome::Okay,
        ev.script_name is None,
        ev.exceptions@.len() == 0,
        ev.logs@ == seq![log_entry],
        ev.event_timestamp == log_entry.timestamp,
        ev.event is None,
        ev.status is None,
{
    let timestamp = log_entry.timestamp;
    let mut logs: Vec<LogEntry> = Vec::new();
    logs.push(log_entry);
    TailEventMessage {
        outcome: Outcome::Okay,
        script_name: None,
        exceptions: Vec::new(),
        logs,
        event_timestamp: timestamp,
        event: None,
        status: None,
    }
}

} // verus!
