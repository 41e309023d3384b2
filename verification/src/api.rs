//! What the viewer asks of the Cloudflare API and makes of its answers: the
//! request URLs, the reading of a Worker listing, the error reports, and the
//! keep-alive rule of the event stream.

use vstd::prelude::*;
use crate::text::{append, decimal, i64_text, joined, owned, replace_all, replace_text, signed_decimal};
use crate::types::{CloudflareError, WorkerScript, WorkerScriptResponse};

verus! {

/// The address of the Worker listing of an account.
pub open spec fn workers_url_text(account_id: Seq<char>) -> Seq<char> {
    "https://api.cloudflare.com/client/v4/accounts/"@ + account_id + "/workers/scripts"@
}

/// The address at which a tail session of a Worker is created.
pub open spec fn tail_url_text(account_id: Seq<char>, worker: Seq<char>) -> Seq<char> {
    "https://api.cloudflare.com/client/v4/accounts/"@ + account_id + "/workers/scripts/"@ + worker
        + "/tails"@
}

/// The address of the Worker listing of an account.
pub fn workers_url(account_id: &str) -> (r: String)
    ensures
        r@ == workers_url_text(account_id@),
{
    let mut r = owned("https://api.cloudflare.com/client/v4/accounts/");
    append(&mut r, account_id);
    append(&mut r, "/workers/scripts");
    r
}

/// The address at which a tail session of a Worker is created.
pub fn tail_url(account_id: &str, worker: &str) -> (r: String)
    ensures
        r@ == tail_url_text(account_id@, worker@),
{
    let mut r = owned("https://api.cloudflare.com/client/v4/accounts/");
    append(&mut r, account_id);
    append(&mut r, "/workers/scripts/");
    append(&mut r, worker);
    append(&mut r, "/tails");
    r
}

/// The WebSocket address of a tail session: its URL with every `http://`
/// turned into `wss://`.
pub fn websocket_url(session_url: &str) -> (r: String)
    ensures
        r@ == replace_all(session_url@, "http://"@, "wss://"@),
{
    proof {
        reveal_strlit("http://");
    }
    replace_text(session_url, "http://", "wss://")
}

/// A session URL that starts with `http://`, and holds it nowhere else, is
/// reached over `wss://` at the same host and path; one that holds no
/// `http://` is used as it is.
pub proof fn lemma_websocket_scheme(rest: Seq<char>)
    ensures
        (forall|i: int| 0 <= i <= rest.len() - 7 ==> #[trigger] rest.subrange(i, i + 7) != "http://"@)
            ==> replace_all("http://"@ + rest, "http://"@, "wss://"@) == "wss://"@ + rest
                && replace_all(rest, "http://"@, "wss://"@) == rest,
{
    reveal_strlit("http://");
    crate::text::lemma_replace_all_occurrences(rest, "http://"@, "wss://"@);
}

/// The text of an HTTP status as the HTTP library prints it: the code and
/// its reason phrase.
pub uninterp spec fn http_status_display(code: u16) -> Seq<char>;

/// `StatusCode::from_u16` followed by its `Display` (`to_string`).
///
/// Trusted: the text is a function of the code alone; the source prints the
/// code, a space and the canonical reason phrase (or `<unknown status code>`).
/// The contract states the code and the space, and names the rest without
/// spelling out the table of reason phrases. Codes outside 100..=999 are
/// refused by `from_u16` and left out by `requires`.
#[verifier::external_body]
fn status_text(code: u16) -> (r: String)
    requires
        100 <= code <= 999,
    ensures
        r@ == http_status_display(code),
        r@.len() >= 4,
        r@.take(4) == decimal(code as nat) + seq![' '],
{
    match reqwest::StatusCode::from_u16(code) {
        Ok(status) => status.to_string(),
        Err(_) => String::new(),
    }
}

/// Whether an HTTP status reports success (2xx).
pub open spec fn is_success_status(code: u16) -> bool {
    200 <= code <= 299
}

/// The report for a Worker listing that the API answered with the failing
/// status `code`, printed `status`, and the body `body`.
pub open spec fn listing_failure_text(code: u16, status: Seq<char>, body: Seq<char>) -> Seq<char> {
    if code == 401 {
        "Authentication failed. Please check your API token."@
    } else if code == 403 {
        "Access denied. Please verify your account ID and API token permissions."@
    } else if code == 404 {
        "Account not found. Please verify your account ID."@
    } else if code == 429 {
        "Rate limit exceeded. Please try again later."@
    } else {
        "HTTP error "@ + status + ": "@ + body
    }
}

/// The report for a Worker listing that failed with status `code`, given the
/// printed status and the answer's body.
pub fn listing_failure_message(code: u16, status: &str, body: &str) -> (r: String)
    ensures
        r@ == listing_failure_text(code, status@, body@),
{
    if code == 401 {
        owned("Authentication failed. Please check your API token.")
    } else if code == 403 {
        owned("Access denied. Please verify your account ID and API token permissions.")
    } else if code == 404 {
        owned("Account not found. Please verify your account ID.")
    } else if code == 429 {
        owned("Rate limit exceeded. Please try again later.")
    } else {
        let mut r = owned("HTTP error ");
        append(&mut r, status);
        append(&mut r, ": ");
        append(&mut r, body);
        r
    }
}

/// Checks the HTTP status of a Worker listing: nothing to report for 2xx,
/// else the report for that status and body.
pub fn listing_status_failure(code: u16, body: &str) -> (r: Option<String>)
    requires
        100 <= code <= 999,
    ensures
        is_success_status(code) <==> r is None,
        r matches Some(m) ==> m@ == listing_failure_text(code, http_status_display(code), body@),
{
    if 200 <= code && code <= 299 {
        None
    } else {
        let status = status_text(code);
        Some(listing_failure_message(code, status.as_str(), body))
    }
}

/// The report for a tail session that the API refused with printed status
/// `status` and body `body`.
pub open spec fn session_failure_text(status: Seq<char>, body: Seq<char>) -> Seq<char> {
    "HTTP error: "@ + status + " "@ + body
}

/// The report for a refused tail session, given the printed status and the
/// answer's body.
pub fn session_failure_message(status: &str, body: &str) -> (r: String)
    ensures
        r@ == session_failure_text(status@, body@),
{
    let mut r = owned("HTTP error: ");
    append(&mut r, status);
    append(&mut r, " ");
    append(&mut r, body);
    r
}

/// Checks the HTTP status of a tail-session request: nothing to report for
/// 2xx, else the report for that status and body.
pub fn session_status_failure(code: u16, body: &str) -> (r: Option<String>)
    requires
        100 <= code <= 999,
    ensures
        is_success_status(code) <==> r is None,
        r matches Some(m) ==> m@ == session_failure_text(http_status_display(code), body@),
{
    if 200 <= code && code <= 299 {
        None
    } else {
        let status = status_text(code);
        Some(session_failure_message(status.as_str(), body))
    }
}

/// Why a request could not be sent.
#[derive(Debug, Clone, Copy, PartialEq, Eq, Structural)]
pub enum RequestFailure {
    /// No connection could be made.
    Connect,
    /// The connection timed out.
    Timeout,
    /// Anything else.
    Other,
}

/// The report for a Worker listing that could not be sent; `detail` is the
/// HTTP client's own description of the failure.
pub open spec fn network_failure_text(kind: RequestFailure, detail: Seq<char>) -> Seq<char> {
    match kind {
        RequestFailure::Connect => "Could not connect to Cloudflare API. Please check your internet connection."@,
        RequestFailure::Timeout => "Connection to Cloudflare API timed out. Please try again."@,
        RequestFailure::Other => "Network error: "@ + detail + ". Please check your connection and try again."@,
    }
}

/// The report for a Worker listing that could not be sent.
pub fn network_failure_message(kind: RequestFailure, detail: &str) -> (r: String)
    ensures
        r@ == network_failure_text(kind, detail@),
{
    match kind {
        RequestFailure::Connect => owned("Could not connect to Cloudflare API. Please check your internet connection."),
        RequestFailure::Timeout => owned("Connection to Cloudflare API timed out. Please try again."),
        RequestFailure::Other => {
            let mut r = owned("Network error: ");
            append(&mut r, detail);
            append(&mut r, ". Please check your connection and try again.");
            r
        },
    }
}

/// The report for a Worker listing whose answer could not be read.
pub fn unreadable_listing_message() -> (r: String)
    ensures
        r@ == "Failed to parse Cloudflare API response. This might be a temporary issue, please try again."@,
{
    owned("Failed to parse Cloudflare API response. This might be a temporary issue, please try again.")
}

/// One API error as the report lists it: `code: message`.
pub open spec fn error_item(e: CloudflareError) -> Seq<char> {
    signed_decimal(e.code as int) + ": "@ + e.message@
}

/// The report for a listing in which the API says it failed.
pub open spec fn api_errors_text(errors: Seq<CloudflareError>) -> Seq<char> {
    "Cloudflare API error: "@ + joined(errors.map_values(|e: CloudflareError| error_item(e)), ", "@)
}

/// The report for an account without Workers.
pub open spec fn no_workers_text() -> Seq<char> {
    "No workers found in your account. Please make sure you have deployed at least one worker."@
}

/// Writes the API's errors as `code: message` items separated by `, `.
pub fn api_errors_message(errors: &Vec<CloudflareError>) -> (r: String)
    ensures
        r@ == api_errors_text(errors@),
{
    let ghost items = errors@.map_values(|e: CloudflareError| error_item(e));
    let mut list = String::new();
    let mut i: usize = 0;
    while i < errors.len()
        invariant
            i <= errors@.len(),
            items == errors@.map_values(|e: CloudflareError| error_item(e)),
            list@ == joined(items.take(i as int), ", "@),
        decreases errors@.len() - i,
    {
        let ghost before = list@;
        if i > 0 {
            append(&mut list, ", ");
        }
        let code = i64_text(errors[i].code as i64);
        append(&mut list, code.as_str());
        append(&mut list, ": ");
        append(&mut list, errors[i].message.as_str());
        proof {
            let t = items.take(i + 1);
            assert(t.drop_last() =~= items.take(i as int));
            assert(t.last() == error_item(errors@[i as int]));
            if i == 0 {
                assert(items.take(i as int) =~= Seq::<Seq<char>>::empty());
            }
        }
        i = i + 1;
    }
    assert(items.take(errors@.len() as int) =~= items);
    let mut r = owned("Cloudflare API error: ");
    append(&mut r, list.as_str());
    r
}

/// What a successful Worker listing yields: the API's own failure report,
/// the report for an account without Workers, or the Workers.
pub fn workers_from_response(response: WorkerScriptResponse) -> (r: Result<Vec<WorkerScript>, String>)
    ensures
        !response.success ==> (r matches Err(m) && m@ == api_errors_text(response.errors@)),
        response.success && response.result@.len() == 0 ==> (r matches Err(m) && m@ == no_workers_text()),
        response.success && response.result@.len() > 0 ==> r == Ok::<Vec<WorkerScript>, String>(response.result),
{
    if !response.success {
        return Err(api_errors_message(&response.errors));
    }
    if response.result.len() == 0 {
        return Err(owned("No workers found in your account. Please make sure you have deployed at least one worker."));
    }
    Ok(response.result)
}

/// The ids of the Workers, in order.
pub fn worker_ids(workers: Vec<WorkerScript>) -> (r: Vec<String>)
    ensures
        r@ == workers@.map_values(|w: WorkerScript| w.id),
{
    let ghost all = workers@;
    let mut ids: Vec<String> = Vec::new();
    let mut i: usize = 0;
    let n = workers.len();
    while i < n
        invariant
            n == all.len(),
            i <= n,
            ids@.len() == i,
            forall|j: int| 0 <= j < i ==> #[trigger] ids@[j] == all[j].id,
            workers@ == all,
        decreases n - i,
    {
        ids.push(workers[i].id.clone());
        i = i + 1;
    }
    assert(ids@ =~= all.map_values(|w: WorkerScript| w.id));
    ids
}

/// What the keep-alive task does at each tick.
#[derive(Debug, Clone, Copy, PartialEq, Eq, Structural)]
pub enum PingDecision {
    /// Send a ping and wait for its pong.
    SendPing,
    /// The last ping went unanswered: the connection is taken for dead and
    /// the task stops.
    GiveUp,
}

/// The keep-alive state of an event stream: whether a ping awaits its pong.
#[derive(Debug)]
pub struct PingMonitor {
    pub waiting_for_pong: bool,
}

impl PingMonitor {
    /// A stream with no ping outstanding.
    pub fn new() -> (r: PingMonitor)
        ensures
            !r.waiting_for_pong,
    {
        PingMonitor { waiting_for_pong: false }
    }

    /// The decision at a tick: give up where the previous ping is still
    /// unanswered, else send a ping and wait for its pong.
    pub fn tick(&mut self) -> (d: PingDecision)
        ensures
            old(self).waiting_for_pong ==> d == PingDecision::GiveUp && final(self).waiting_for_pong,
            !old(self).waiting_for_pong ==> d == PingDecision::SendPing && final(self).waiting_for_pong,
    {
        if self.waiting_for_pong {
            PingDecision::GiveUp
        } else {
            self.waiting_for_pong = true;
            PingDecision::SendPing
        }
    }

    /// A pong arrived.
    pub fn pong_received(&mut self)
        ensures
            !final(self).waiting_for_pong,
    {
        self.waiting_for_pong = false;
    }
}

/// Two ticks with no pong between them end the keep-alive task: the second
/// gives up, whatever the first did.
pub proof fn lemma_unanswered_ping_gives_up(a: bool, b: bool, c: bool, first: PingDecision, second: PingDecision)
    requires
        a ==> first == PingDecision::GiveUp && b,
        !a ==> first == PingDecision::SendPing && b,
        b ==> second == PingDecision::GiveUp && c,
        !b ==> second == PingDecision::SendPing && c,
    ensures
        second == PingDecision::GiveUp,
{
}

} // verus!
