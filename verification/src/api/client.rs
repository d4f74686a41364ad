//! The transport's side of the remote API: which request each call makes,
//! when a response is sent again and after what delay, and what a final
//! response means. Sending and waiting are the caller's part.

use crate::error::{text_result, BypassError, ErrorView};
use crate::text::{concat, opt_text, parse_u64, parsed_u64};
use vstd::prelude::*;
use vstd::string::*;

verus! {

/// Where the API lives.
pub const BASE_URL: &'static str = "https://api.app.shortcut.com/api/v3";

/// The header that carries the credential.
pub const TOKEN_HEADER: &'static str = "Shortcut-Token";

/// The header by which a 429 response says how long to wait.
pub const RETRY_AFTER_HEADER: &'static str = "Retry-After";

/// How often a request is sent again after its first attempt.
pub const MAX_RETRIES: u32 = 5;

/// The delay before the first retry, in seconds.
pub const BASE_DELAY: u64 = 1;

/// The longest delay, in seconds.
pub const MAX_DELAY: u64 = 30;

/// Whether a response with this status may be answered by a retry.
pub open spec fn retryable(status: u16) -> bool {
    status == 429 || status == 500 || status == 503 || status == 504
}

/// Two to the power `n`.
pub open spec fn pow2(n: nat) -> nat
    decreases n,
{
    if n == 0 {
        1
    } else {
        2 * pow2((n - 1) as nat)
    }
}

/// `secs`, or the longest delay if `secs` is longer.
pub open spec fn capped(secs: int) -> int {
    if secs <= MAX_DELAY {
        secs
    } else {
        MAX_DELAY as int
    }
}

/// The delay that doubles with each attempt, capped.
pub open spec fn exponential_delay(attempt: nat) -> int {
    capped(BASE_DELAY * pow2(attempt))
}

/// The seconds that a `Retry-After` header asks for, if there is a header
/// and it writes a number.
pub open spec fn retry_after_secs(header: Option<Seq<char>>) -> Option<u64> {
    match header {
        Some(value) => parsed_u64(value),
        None => None,
    }
}

/// The delay before the retry that follows attempt number `attempt`: for a
/// 429 what its `Retry-After` header asks for, if it asks, and else the
/// exponential delay; never more than the longest delay.
pub open spec fn backoff_delay(status: u16, attempt: nat, header: Option<Seq<char>>) -> int {
    if status == 429 {
        match retry_after_secs(header) {
            Some(secs) => capped(secs as int),
            None => exponential_delay(attempt),
        }
    } else {
        exponential_delay(attempt)
    }
}

/// `pow2` grows with its argument.
pub proof fn lemma_pow2_monotone(a: nat, b: nat)
    requires
        a <= b,
    ensures
        1 <= pow2(a) <= pow2(b),
    decreases b,
{
    if b > 0 {
        if a < b {
            lemma_pow2_monotone(a, (b - 1) as nat);
        } else {
            lemma_pow2_monotone((a - 1) as nat, (b - 1) as nat);
        }
    }
}

/// For one status and one header, the delay never shrinks from one attempt
/// to a later one, and it never exceeds the longest delay.
pub proof fn lemma_backoff_monotone(status: u16, header: Option<Seq<char>>, a: nat, b: nat)
    requires
        a <= b,
    ensures
        backoff_delay(status, a, header) <= backoff_delay(status, b, header) <= MAX_DELAY,
{
    lemma_pow2_monotone(a, b);
}

/// While the cap is not reached the exponential delay doubles from one
/// attempt to the next, starting from the base delay.
pub proof fn lemma_exponential_doubles(attempt: nat)
    ensures
        exponential_delay(0) == BASE_DELAY,
        exponential_delay(attempt + 1) < MAX_DELAY ==> exponential_delay(attempt + 1) == 2
            * exponential_delay(attempt),
{
    reveal_with_fuel(pow2, 2);
}

/// Whether a response with this status may be answered by a retry.
pub fn is_retryable(status: u16) -> (r: bool)
    ensures
        r == retryable(status),
{
    status == 429 || status == 500 || status == 503 || status == 504
}

/// The exponential delay after attempt number `attempt`, in seconds.
pub fn exponential(attempt: u32) -> (secs: u64)
    ensures
        secs == exponential_delay(attempt as nat),
{
    let mut secs: u64 = BASE_DELAY;
    let mut i: u32 = 0;
    while i < attempt && secs < MAX_DELAY
        invariant
            i <= attempt,
            secs == exponential_delay(i as nat),
        decreases attempt - i,
    {
        secs = if secs > MAX_DELAY / 2 {
            MAX_DELAY
        } else {
            secs * 2
        };
        i = i + 1;
    }
    proof {
        lemma_pow2_monotone(i as nat, attempt as nat);
    }
    secs
}

/// The delay before the retry that follows attempt number `attempt`, in
/// seconds. `retry_after` is the value of the response's `Retry-After`
/// header, if it has one.
pub fn backoff(status: u16, attempt: u32, retry_after: Option<&str>) -> (secs: u64)
    ensures
        secs == backoff_delay(
            status,
            attempt as nat,
            match retry_after {
                Some(value) => Some(value@),
                None => None,
            },
        ),
        secs <= MAX_DELAY,
{
    if status == 429 {
        let asked = match retry_after {
            Some(value) => parse_u64(value),
            None => None,
        };
        match asked {
            Some(secs) => if secs <= MAX_DELAY {
                secs
            } else {
                MAX_DELAY
            },
            None => exponential(attempt),
        }
    } else {
        exponential(attempt)
    }
}

/// What to do with a response.
#[derive(Debug, Clone, Copy, PartialEq, Eq, Structural)]
pub enum RetryDecision {
    /// Hand the response on: it is final.
    Deliver,
    /// Wait `delay_secs` seconds, then send the same request again as
    /// attempt number `attempt`.
    Retry { delay_secs: u64, attempt: u32 },
}

/// The decision that the retry policy takes on a response with `status`
/// to attempt number `attempt`, the first attempt being number 0.
pub open spec fn retry_decision(status: u16, attempt: u32, header: Option<Seq<char>>)
    -> RetryDecision {
    if retryable(status) && attempt < MAX_RETRIES {
        RetryDecision::Retry {
            delay_secs: backoff_delay(status, attempt as nat, header) as u64,
            attempt: (attempt + 1) as u32,
        }
    } else {
        RetryDecision::Deliver
    }
}

/// Decides on a response with `status` to attempt number `attempt`, the
/// first attempt being number 0. `retry_after` is the value of the
/// response's `Retry-After` header, if it has one.
pub fn after_response(status: u16, attempt: u32, retry_after: Option<&str>) -> (d: RetryDecision)
    ensures
        d == retry_decision(
            status,
            attempt,
            match retry_after {
                Some(value) => Some(value@),
                None => None,
            },
        ),
        !retryable(status) || attempt >= MAX_RETRIES ==> d == RetryDecision::Deliver,
        d matches RetryDecision::Retry { delay_secs, attempt: next } ==> delay_secs <= MAX_DELAY
            && next == attempt + 1 && next <= MAX_RETRIES,
{
    if is_retryable(status) && attempt < MAX_RETRIES {
        RetryDecision::Retry { delay_secs: backoff(status, attempt, retry_after), attempt: attempt + 1 }
    } else {
        RetryDecision::Deliver
    }
}

/// The copy of a request that the next attempt sends. A request that cannot
/// be copied is not sent at all.
pub fn reissue<T>(copy: Option<T>) -> (r: Result<T, BypassError>)
    ensures
        match copy {
            Some(request) => r == Ok::<T, BypassError>(request),
            None => r matches Err(e) && e@ == ErrorView::Transport(
                "request body is not cloneable"@,
            ),
        },
{
    match copy {
        Some(request) => Ok(request),
        None => Err(BypassError::Transport("request body is not cloneable".to_owned())),
    }
}

/// The string that the JSON text `body` holds under `key`: there is one if
/// `body` is well-formed JSON, writes an object, and the object's member
/// `key` is a string.
pub uninterp spec fn json_string_member(body: Seq<char>, key: Seq<char>) -> Option<Seq<char>>;

/// Parses `body` with `serde_json::from_str` into a `serde_json::Value`,
/// takes its member `key` with `Value::get` and reads it with
/// `Value::as_str`. Trusted: the outcome depends on the two texts alone;
/// ill-formed JSON, a value that is no object, a missing member and a
/// member that is no string all give `None`.
#[verifier::external_body]
fn string_member(body: &str, key: &str) -> (r: Option<String>)
    ensures
        opt_text(r) == json_string_member(body@, key@),
{
    let value: serde_json::Value = serde_json::from_str(body).ok()?;
    value.get(key)?.as_str().map(|text| text.to_string())
}

/// Whether a response with this status is a success.
pub open spec fn successful(status: u16) -> bool {
    200 <= status < 300
}

/// Whether a response with this status is a success.
pub fn is_success(status: u16) -> (r: bool)
    ensures
        r == successful(status),
{
    200 <= status && status < 300
}

/// The message of a failed response: the `message` that its body holds, if
/// it holds one, and else the body as it is.
pub fn error_message(body: String, message: Option<String>) -> (r: String)
    ensures
        r@ == (match message {
            Some(text) => text@,
            None => body@,
        }),
{
    match message {
        Some(text) => text,
        None => body,
    }
}

/// What a final response means: the body of a success, to be decoded by the
/// caller, or the error that a failure stands for.
pub open spec fn response_outcome(status: u16, body: Seq<char>) -> Result<Seq<char>, ErrorView> {
    if successful(status) {
        Ok(body)
    } else {
        Err(
            ErrorView::Api {
                status,
                message: match json_string_member(body, "message"@) {
                    Some(text) => text,
                    None => body,
                },
            },
        )
    }
}

/// How a request is sent.
#[derive(Debug, Clone, Copy, PartialEq, Eq, Structural)]
pub enum Method {
    Get,
    Post,
}

/// A request, complete and unchanging, so that each attempt sends the same.
#[derive(Debug)]
pub struct ApiRequest {
    pub method: Method,
    /// The address in full.
    pub url: String,
    /// The credential, sent in the header `TOKEN_HEADER`.
    pub token: String,
    /// The JSON text to send, if any.
    pub body: Option<String>,
}

/// An `ApiRequest` with its strings as sequences of characters.
pub struct ApiRequestView {
    pub method: Method,
    pub url: Seq<char>,
    pub token: Seq<char>,
    pub body: Option<Seq<char>>,
}

impl View for ApiRequest {
    type V = ApiRequestView;

    open spec fn view(&self) -> ApiRequestView {
        ApiRequestView {
            method: self.method,
            url: self.url@,
            token: self.token@,
            body: opt_text(self.body),
        }
    }
}

/// The requests of one holder of a credential.
pub struct ShortcutClient {
    token: String,
}

impl ShortcutClient {
    /// The credential.
    pub closed spec fn token(&self) -> Seq<char> {
        self.token@
    }

    /// The read of `path`.
    pub open spec fn get_request(&self, path: Seq<char>) -> ApiRequestView {
        ApiRequestView { method: Method::Get, url: BASE_URL@ + path, token: self.token(), body: None }
    }

    /// The create call at `path` with the JSON text `body`.
    pub open spec fn post_request(&self, path: Seq<char>, body: Seq<char>) -> ApiRequestView {
        ApiRequestView {
            method: Method::Post,
            url: BASE_URL@ + path,
            token: self.token(),
            body: Some(body),
        }
    }

    /// A client that authenticates with `token`.
    pub fn new(token: String) -> (r: ShortcutClient)
        ensures
            r.token() == token@,
    {
        ShortcutClient { token }
    }

    fn get(&self, path: &str) -> (r: ApiRequest)
        ensures
            r@ == self.get_request(path@),
    {
        ApiRequest {
            method: Method::Get,
            url: concat(BASE_URL, path),
            token: self.token.clone(),
            body: None,
        }
    }

    fn post(&self, path: &str, body: String) -> (r: ApiRequest)
        ensures
            r@ == self.post_request(path@, body@),
    {
        ApiRequest {
            method: Method::Post,
            url: concat(BASE_URL, path),
            token: self.token.clone(),
            body: Some(body),
        }
    }

    /// What a final response means: the body of a success, to be decoded by
    /// the caller, or the error that a failure stands for.
    pub fn handle_response(status: u16, body: String) -> (r: Result<String, BypassError>)
        ensures
            text_result(r) == response_outcome(status, body@),
    {
        if is_success(status) {
            Ok(body)
        } else {
            let member = string_member(body.as_str(), "message");
            Err(BypassError::Api { status, message: error_message(body, member) })
        }
    }

    /// The read of the people of the workspace.
    pub fn list_members(&self) -> (r: ApiRequest)
        ensures
            r@ == self.get_request("/members"@),
    {
        self.get("/members")
    }

    /// The read of the teams of the workspace.
    pub fn list_groups(&self) -> (r: ApiRequest)
        ensures
            r@ == self.get_request("/groups"@),
    {
        self.get("/groups")
    }

    /// The read of the workflows of the workspace.
    pub fn list_workflows(&self) -> (r: ApiRequest)
        ensures
            r@ == self.get_request("/workflows"@),
    {
        self.get("/workflows")
    }

    /// The call that creates an objective from the JSON text `body`.
    pub fn create_objective(&self, body: String) -> (r: ApiRequest)
        ensures
            r@ == self.post_request("/objectives"@, body@),
    {
        self.post("/objectives", body)
    }

    /// The call that creates an epic from the JSON text `body`.
    pub fn create_epic(&self, body: String) -> (r: ApiRequest)
        ensures
            r@ == self.post_request("/epics"@, body@),
    {
        self.post("/epics", body)
    }

    /// The call that creates a story from the JSON text `body`.
    pub fn create_story(&self, body: String) -> (r: ApiRequest)
        ensures
            r@ == self.post_request("/stories"@, body@),
    {
        self.post("/stories", body)
    }
}

} // verus!
