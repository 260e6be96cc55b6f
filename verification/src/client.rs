//! Talking to a Toncenter server: what is sent, what an answer means, and when
//! a failed request is sent again.
//!
//! Nothing here touches the network. A [`RpcCall`] says what to send; whoever
//! sends it reports back what happened as an [`HttpEvent`] and is told what to
//! do next.

use crate::config::Config;
use crate::json;
use crate::json::{Json, JsonError};
use crate::retry;
use crate::retry::{Attempts, Decision, Outcome};
use crate::text;
use vstd::arithmetic::power2::*;
use vstd::prelude::*;

verus! {

/// How requests reach a Toncenter server.
pub struct ToncenterClient {
    pub base_url: String,
    pub api_key: Option<String>,
    pub max_retries: u32,
    pub retry_base_delay_ms: u64,
    pub timeout_seconds: u64,
    pub connect_timeout_seconds: u64,
}

/// What a get method of a contract left on its stack.
#[derive(Debug)]
pub struct GetMethodResult {
    pub stack: Vec<Json>,
}

impl GetMethodResult {
    pub open spec fn view(&self) -> Seq<json::JsonView> {
        Json::Array(self.stack)@->Array_0
    }
}

/// Why a request never got an answer, as far as the transport can tell.
#[derive(Clone, Copy, Debug)]
pub struct SendFailure {
    pub timeout: bool,
    pub connect: bool,
    pub request: bool,
}

/// What happened to a request.
pub enum HttpEvent {
    /// It could not be sent, or no answer came.
    SendFailed(SendFailure),
    /// An answer came, but its body could not be read.
    BodyFailed,
    /// An answer came.
    Answered { status: u16, body: String },
}

/// Why a request failed.
#[derive(Debug)]
pub enum RpcError {
    Send(SendFailure),
    ReadBody,
    Status { status: u16, body: String },
    Parse(JsonError),
    Rpc(Json),
}

/// What an [`RpcError`] says, but for the parser's own words.
pub enum RpcErrorView {
    Send(SendFailure),
    ReadBody,
    Status { status: u16, body: Seq<char> },
    Parse,
    Rpc(json::JsonView),
}

impl RpcError {
    pub open spec fn view(&self) -> RpcErrorView {
        match self {
            RpcError::Send(failure) => RpcErrorView::Send(*failure),
            RpcError::ReadBody => RpcErrorView::ReadBody,
            RpcError::Status { status, body } => RpcErrorView::Status {
                status: *status,
                body: body@,
            },
            RpcError::Parse(_) => RpcErrorView::Parse,
            RpcError::Rpc(error) => RpcErrorView::Rpc(error@),
        }
    }
}

/// What to do after a request.
#[derive(Debug)]
pub enum RpcStep {
    /// Wait, then send the request again.
    Retry { delay_ms: u128, error: RpcError },
    Fail(RpcError),
    Done(Json),
}

// ---------------------------------------------------------------------------
// What an answer means
// ---------------------------------------------------------------------------

/// Too many requests, or a fault on the server's side.
pub open spec fn transient_status(status: int) -> bool {
    status == 429 || 500 <= status < 600
}

/// Whether the status says that the request was carried out.
pub open spec fn success_status(status: int) -> bool {
    200 <= status < 300
}

/// Whether the transport's account of a failure lets it pass.
pub open spec fn transient_failure(failure: SendFailure) -> bool {
    failure.timeout || failure.connect || failure.request
}

/// Whether an error's text speaks of a limit or of something that passes.
pub open spec fn transient_message(message: Seq<char>) -> bool {
    let lower = text::ascii_lowercase(message);
    ||| text::has_substring(lower, "rate limit"@)
    ||| text::has_substring(lower, "too many requests"@)
    ||| text::has_substring(lower, "timeout"@)
    ||| text::has_substring(lower, "temporar"@)
}

/// Whether a JSON-RPC error object stands for a failure that may pass.
pub open spec fn transient_rpc_error(error: json::JsonView) -> bool {
    ||| match error.int_member("code"@) {
        Some(code) => code == 429 || code >= 500,
        None => false,
    }
    ||| match error.text_member("message"@) {
        Some(message) => transient_message(message),
        None => false,
    }
}

/// The error that an answer carries: its member `error`, unless that is null.
pub open spec fn rpc_error(answer: json::JsonView) -> Option<json::JsonView> {
    match answer.member("error"@) {
        Some(json::JsonView::Null) => None,
        other => other,
    }
}

/// What the body of a successful answer comes to, once it is read as JSON.
pub open spec fn settle_answer(parsed: Option<json::JsonView>) -> Result<
    json::JsonView,
    RpcErrorView,
> {
    match parsed {
        None => Err(RpcErrorView::Parse),
        Some(answer) => match rpc_error(answer) {
            Some(error) => Err(RpcErrorView::Rpc(error)),
            None => Ok(answer),
        },
    }
}

/// What a request came to.
pub open spec fn settle(event: HttpEvent) -> Result<json::JsonView, RpcErrorView> {
    match event {
        HttpEvent::SendFailed(failure) => Err(RpcErrorView::Send(failure)),
        HttpEvent::BodyFailed => Err(RpcErrorView::ReadBody),
        HttpEvent::Answered { status, body } => if success_status(status as int) {
            settle_answer(json::json_value(body@))
        } else {
            Err(RpcErrorView::Status { status, body: body@ })
        },
    }
}

/// Whether a failed request is worth sending again.
pub open spec fn transient(error: RpcErrorView) -> bool {
    match error {
        RpcErrorView::Send(failure) => transient_failure(failure),
        RpcErrorView::Status { status, .. } => transient_status(status as int),
        RpcErrorView::Rpc(error) => transient_rpc_error(error),
        RpcErrorView::ReadBody | RpcErrorView::Parse => false,
    }
}

/// The outcome of an attempt that came to `settled`.
pub open spec fn outcome_of(settled: Result<json::JsonView, RpcErrorView>) -> Outcome {
    match settled {
        Ok(_) => Outcome::Success,
        Err(error) => if transient(error) {
            Outcome::Transient
        } else {
            Outcome::Permanent
        },
    }
}

/// Reads what the body of a successful answer comes to.
pub fn judge_answer(parsed: Result<Json, JsonError>) -> (r: Result<Json, RpcError>)
    ensures
        match r {
            Ok(answer) => parsed is Ok && settle_answer(Some(parsed->Ok_0@)) == Ok::<
                json::JsonView,
                RpcErrorView,
            >(answer@),
            Err(e) => settle_answer(
                match parsed {
                    Ok(answer) => Some(answer@),
                    Err(_) => None,
                },
            ) == Err::<json::JsonView, RpcErrorView>(e@),
        },
        parsed is Err ==> r == Err::<Json, RpcError>(RpcError::Parse(parsed->Err_0)),
        parsed matches Ok(answer) ==> match answer@ {
            json::JsonView::Object(members) => if members.contains_key("error"@)
                && members["error"@] != json::JsonView::Null {
                r matches Err(RpcError::Rpc(error)) && error@ == members["error"@]
            } else {
                r == Ok::<Json, RpcError>(answer)
            },
            _ => r == Ok::<Json, RpcError>(answer),
        },
{
    let answer: Json = match parsed {
        Ok(answer) => answer,
        Err(e) => return Err(RpcError::Parse(e)),
    };
    let failed: bool = match answer.get("error") {
        None => false,
        Some(Json::Null) => false,
        Some(_) => true,
    };
    if failed {
        Err(RpcError::Rpc(answer.into_member("error")))
    } else {
        Ok(answer)
    }
}

/// Reads what a request came to.
pub fn judge_event(event: HttpEvent) -> (r: Result<Json, RpcError>)
    ensures
        match r {
            Ok(answer) => settle(event) == Ok::<json::JsonView, RpcErrorView>(answer@),
            Err(e) => settle(event) == Err::<json::JsonView, RpcErrorView>(e@),
        },
{
    match event {
        HttpEvent::SendFailed(failure) => Err(RpcError::Send(failure)),
        HttpEvent::BodyFailed => Err(RpcError::ReadBody),
        HttpEvent::Answered { status, body } => {
            if 200 <= status && status < 300 {
                judge_answer(json::read_json(body.as_str()))
            } else {
                Err(RpcError::Status { status, body })
            }
        },
    }
}

impl ToncenterClient {
    /// A client with the given settings.
    pub fn new(config: &Config) -> (r: ToncenterClient)
        ensures
            r.base_url == config.toncenter_url,
            r.api_key == config.toncenter_api_key,
            r.max_retries == config.toncenter_max_retries,
            r.retry_base_delay_ms == config.toncenter_retry_base_delay_ms,
            r.timeout_seconds == config.toncenter_timeout_seconds,
            r.connect_timeout_seconds == config.toncenter_connect_timeout_seconds,
    {
        ToncenterClient {
            base_url: config.toncenter_url.clone(),
            api_key: match &config.toncenter_api_key {
                Some(key) => Some(key.clone()),
                None => None,
            },
            max_retries: config.toncenter_max_retries,
            retry_base_delay_ms: config.toncenter_retry_base_delay_ms,
            timeout_seconds: config.toncenter_timeout_seconds,
            connect_timeout_seconds: config.toncenter_connect_timeout_seconds,
        }
    }

    /// Too many requests, or a fault on the server's side.
    pub fn is_retryable_status(status: u16) -> (r: bool)
        ensures
            r == transient_status(status as int),
            r == (status == 429 || 500 <= status <= 599),
    {
        status == 429 || (500 <= status && status < 600)
    }

    /// Whether the transport's account of a failure lets it pass.
    pub fn is_retryable_error(failure: &SendFailure) -> (r: bool)
        ensures
            r == transient_failure(*failure),
            r == (failure.timeout || failure.connect || failure.request),
    {
        failure.timeout || failure.connect || failure.request
    }

    /// Whether a JSON-RPC error object stands for a failure that may pass.
    pub fn is_retryable_rpc_error(error: &Json) -> (r: bool)
        ensures
            r == transient_rpc_error(error@),
            ({
                let code = if error@ is Object && error@->Object_0.contains_key("code"@) {
                    error@->Object_0["code"@]
                } else {
                    json::JsonView::Null
                };
                let message = if error@ is Object && error@->Object_0.contains_key("message"@) {
                    error@->Object_0["message"@]
                } else {
                    json::JsonView::Null
                };
                r == {
                    ||| code is Int && (code->Int_0 == 429 || code->Int_0 >= 500)
                    ||| message is Text && {
                        let lower = text::ascii_lowercase(message->Text_0);
                        ||| text::has_substring(lower, "rate limit"@)
                        ||| text::has_substring(lower, "too many requests"@)
                        ||| text::has_substring(lower, "timeout"@)
                        ||| text::has_substring(lower, "temporar"@)
                    }
                }
            }),
    {
        if let Some(code) = error.get_int("code") {
            if code == 429 || code >= 500 {
                return true;
            }
        }
        match error.get_text("message") {
            Some(message) => {
                let lower: Vec<char> = text::lowercase(&text::chars_of(message.as_str()));
                text::contains(&lower, &text::chars_of("rate limit"))
                    || text::contains(&lower, &text::chars_of("too many requests"))
                    || text::contains(&lower, &text::chars_of("timeout"))
                    || text::contains(&lower, &text::chars_of("temporar"))
            },
            None => false,
        }
    }
}

// ---------------------------------------------------------------------------
// A call with its retries
// ---------------------------------------------------------------------------

/// A JSON-RPC request under way.
pub struct RpcCall {
    pub url: String,
    pub headers: Vec<(String, String)>,
    pub payload: Json,
    /// What the request is for, as error messages name it.
    pub operation: String,
    pub attempts: Attempts,
    pub retry_base_delay_ms: u64,
}

impl RpcCall {
    pub open spec fn wf(self) -> bool {
        self.attempts.wf()
    }

    /// Whether this is the first attempt of a call of `client` with that
    /// payload: it goes to the client's JSON-RPC address, with its API key as
    /// the only header, and may be tried again as often as the client allows.
    pub open spec fn starts(
        self,
        client: ToncenterClient,
        payload: json::JsonView,
        operation: Seq<char>,
    ) -> bool {
        &&& self.url@ == client.base_url@ + "/api/v2/jsonRPC"@
        &&& match client.api_key {
            Some(key) => self.headers@.len() == 1 && self.headers@[0].0@ == "X-API-Key"@
                && self.headers@[0].1 == key,
            None => self.headers@.len() == 0,
        }
        &&& self.payload@ == payload
        &&& self.operation@ == operation
        &&& self.attempts.attempt == 0
        &&& self.attempts.max_retries == client.max_retries
        &&& self.retry_base_delay_ms == client.retry_base_delay_ms
    }

    /// Takes note of what happened to the request and says what to do next: a
    /// failure that may pass is tried again while the retries last, after a
    /// delay that grows with every attempt.
    pub fn on_event(&mut self, event: HttpEvent) -> (r: RpcStep)
        requires
            old(self).wf(),
        ensures
            final(self).wf(),
            final(self).url == old(self).url,
            final(self).headers == old(self).headers,
            final(self).payload == old(self).payload,
            final(self).operation == old(self).operation,
            final(self).retry_base_delay_ms == old(self).retry_base_delay_ms,
            final(self).attempts.max_retries == old(self).attempts.max_retries,
            final(self).attempts.attempt == old(self).attempts.attempt + if r is Retry {
                1int
            } else {
                0int
            },
            match retry::decision(
                old(self).attempts.attempt as nat,
                old(self).attempts.max_retries as nat,
                outcome_of(settle(event)),
            ) {
                Decision::Finish => r is Done,
                Decision::Retry => r is Retry,
                Decision::Abort => r is Fail,
            },
            match event {
                HttpEvent::SendFailed(failure) => if (failure.timeout || failure.connect
                    || failure.request) && old(self).attempts.attempt < old(
                    self,
                ).attempts.max_retries {
                    r matches RpcStep::Retry { error, .. } && error == RpcError::Send(failure)
                } else {
                    r == RpcStep::Fail(RpcError::Send(failure))
                },
                HttpEvent::BodyFailed => r == RpcStep::Fail(RpcError::ReadBody),
                HttpEvent::Answered { status, body } => if !(200 <= status < 300) {
                    if (status == 429 || 500 <= status < 600) && old(self).attempts.attempt < old(
                        self,
                    ).attempts.max_retries {
                        r matches RpcStep::Retry { error, .. } && error@ == (
                        RpcErrorView::Status { status, body: body@ })
                    } else {
                        r matches RpcStep::Fail(error) && error@ == (RpcErrorView::Status {
                            status,
                            body: body@,
                        })
                    }
                } else {
                    match json::json_value(body@) {
                        None => r matches RpcStep::Fail(error) && error@ is Parse,
                        Some(answer) => if answer is Object && answer->Object_0.contains_key(
                            "error"@,
                        ) && answer->Object_0["error"@] != json::JsonView::Null {
                            if transient_rpc_error(answer->Object_0["error"@]) && old(
                                self,
                            ).attempts.attempt < old(self).attempts.max_retries {
                                r matches RpcStep::Retry { error, .. } && error@
                                    == RpcErrorView::Rpc(answer->Object_0["error"@])
                            } else {
                                r matches RpcStep::Fail(error) && error@ == RpcErrorView::Rpc(
                                    answer->Object_0["error"@],
                                )
                            }
                        } else {
                            r matches RpcStep::Done(json) && json@ == answer
                        },
                    }
                },
            },
            r matches RpcStep::Retry { delay_ms, .. } ==> delay_ms == old(self).retry_base_delay_ms
                * pow2(
                if old(self).attempts.attempt <= 8 {
                    old(self).attempts.attempt as nat
                } else {
                    8
                },
            ),
            match r {
                RpcStep::Retry { delay_ms, error } => delay_ms == old(self).retry_base_delay_ms
                    * retry::backoff_factor(old(self).attempts.attempt as nat) && settle(event)
                    == Err::<json::JsonView, RpcErrorView>(error@),
                RpcStep::Done(answer) => settle(event) == Ok::<json::JsonView, RpcErrorView>(
                    answer@,
                ),
                RpcStep::Fail(e) => settle(event) == Err::<json::JsonView, RpcErrorView>(e@),
            },
    {
        let e: RpcError = match judge_event(event) {
            Ok(answer) => return RpcStep::Done(answer),
            Err(e) => e,
        };
        let attempt: u32 = self.attempts.attempt;
        let outcome: Outcome = if e.is_transient() {
            Outcome::Transient
        } else {
            Outcome::Permanent
        };
        match self.attempts.decide(outcome) {
            Decision::Retry => RpcStep::Retry {
                delay_ms: stretched_delay(self.retry_base_delay_ms, attempt),
                error: e,
            },
            _ => RpcStep::Fail(e),
        }
    }
}

/// The delay after a failed attempt, in milliseconds.
fn stretched_delay(base_delay_ms: u64, attempt: u32) -> (delay_ms: u128)
    ensures
        delay_ms == base_delay_ms * retry::backoff_factor(attempt as nat),
{
    let multiplier: u64 = retry::backoff_multiplier(attempt);
    assert(base_delay_ms as int * multiplier as int <= u64::MAX as int * 256) by (nonlinear_arith)
        requires
            base_delay_ms <= u64::MAX,
            multiplier <= 256,
    ;
    assert(base_delay_ms as int * multiplier as int >= 0) by (nonlinear_arith)
        requires
            base_delay_ms >= 0,
            multiplier >= 0,
    ;
    base_delay_ms as u128 * multiplier as u128
}

impl RpcError {
    /// Whether the request is worth sending again.
    pub fn is_transient(&self) -> (r: bool)
        ensures
            r == transient(self@),
    {
        match self {
            RpcError::Send(failure) => ToncenterClient::is_retryable_error(failure),
            RpcError::ReadBody => false,
            RpcError::Status { status, .. } => ToncenterClient::is_retryable_status(*status),
            RpcError::Parse(_) => false,
            RpcError::Rpc(error) => ToncenterClient::is_retryable_rpc_error(error),
        }
    }
}

/// The outcomes that a call meets when the given things happen to its requests
/// in turn.
pub open spec fn outcomes(events: Seq<HttpEvent>) -> Seq<Outcome> {
    events.map_values(|event: HttpEvent| outcome_of(settle(event)))
}

/// A call always ends: at most `max_retries` requests follow the first, the last
/// one alone decides how it ends, and every one before that failed in a way that
/// may pass.
pub proof fn law_call_ends(events: Seq<HttpEvent>, max_retries: nat)
    requires
        events.len() > max_retries,
    ensures
        retry::run(outcomes(events), 0, max_retries) is Some,
        ({
            let v = retry::run(outcomes(events), 0, max_retries)->0;
            &&& 1 <= v.tries <= max_retries + 1
            &&& v.success == (settle(events[v.tries - 1]) is Ok)
            &&& forall|j: int|
                0 <= j < v.tries - 1 ==> (#[trigger] settle(events[j])) is Err && transient(
                    settle(events[j])->Err_0,
                )
        }),
{
    retry::law_run_ends(outcomes(events), 0, max_retries);
    let v = retry::run(outcomes(events), 0, max_retries)->0;
    assert(outcomes(events)[v.tries - 1] == outcome_of(settle(events[v.tries - 1])));
    assert forall|j: int| 0 <= j < v.tries - 1 implies (#[trigger] settle(events[j])) is Err
        && transient(settle(events[j])->Err_0) by {
        assert(outcomes(events)[j] == outcome_of(settle(events[j])));
    }
}

/// Whether a number is the status of an HTTP answer.
pub open spec fn valid_status(status: int) -> bool {
    100 <= status < 1000
}

/// What `reqwest::StatusCode` writes for a status: the number and its meaning.
pub uninterp spec fn status_words(status: u16) -> Seq<char>;

/// Calls `reqwest::StatusCode::from_u16`, which takes every number from 100 to
/// 999, and writes the result out by `to_string`. Claimed of them: the text
/// depends on the number alone.
#[verifier::external_body]
fn status_text(status: u16) -> (r: String)
    requires
        valid_status(status as int),
    ensures
        r@ == status_words(status),
{
    reqwest::StatusCode::from_u16(status).unwrap().to_string()
}

/// What a failed request is reported as.
pub open spec fn failure_message(error: RpcErrorView, operation: Seq<char>) -> Seq<char> {
    match error {
        RpcErrorView::Send(_) => "Failed to send "@ + operation + " request"@,
        RpcErrorView::ReadBody => "Failed to read "@ + operation + " response body"@,
        RpcErrorView::Status { status, body } => "TonCenter API returned status: "@
            + status_words(status) + " for "@ + operation + ". Error: "@ + body,
        RpcErrorView::Parse => "Failed to parse "@ + operation + " response as JSON"@,
        RpcErrorView::Rpc(error) => "TonCenter JSON-RPC error for "@ + operation + ": "@
            + json::json_words(error),
    }
}

impl RpcError {
    /// What the failed request is reported as.
    pub fn message(&self, operation: &str) -> (r: String)
        requires
            self@ matches RpcErrorView::Status { status, .. } ==> valid_status(status as int),
        ensures
            r@ == failure_message(self@, operation@),
            match self {
                RpcError::Send(_) => r@ == "Failed to send "@ + operation@ + " request"@,
                RpcError::ReadBody => r@ == "Failed to read "@ + operation@ + " response body"@,
                RpcError::Status { status, body } => r@ == "TonCenter API returned status: "@
                    + status_words(*status) + " for "@ + operation@ + ". Error: "@ + body@,
                RpcError::Parse(_) => r@ == "Failed to parse "@ + operation@
                    + " response as JSON"@,
                RpcError::Rpc(error) => r@ == "TonCenter JSON-RPC error for "@ + operation@ + ": "@
                    + json::json_words(error@),
            },
    {
        match self {
            RpcError::Send(_) => "Failed to send ".to_owned().concat(operation).concat(" request"),
            RpcError::ReadBody => "Failed to read ".to_owned().concat(operation).concat(
                " response body",
            ),
            RpcError::Status { status, body } => "TonCenter API returned status: ".to_owned().concat(
                status_text(*status).as_str(),
            ).concat(" for ").concat(operation).concat(". Error: ").concat(body.as_str()),
            RpcError::Parse(_) => "Failed to parse ".to_owned().concat(operation).concat(
                " response as JSON",
            ),
            RpcError::Rpc(error) => "TonCenter JSON-RPC error for ".to_owned().concat(
                operation,
            ).concat(": ").concat(error.to_text().as_str()),
        }
    }
}

// ---------------------------------------------------------------------------
// The calls
// ---------------------------------------------------------------------------

/// A JSON-RPC request with the given method and parameters.
pub open spec fn rpc_request(method: Seq<char>, params: json::JsonView) -> json::JsonView {
    json::object_of(
        seq![
            ("id"@, json::JsonView::Text("1"@)),
            ("jsonrpc"@, json::JsonView::Text("2.0"@)),
            ("method"@, json::JsonView::Text(method)),
            ("params"@, params),
        ],
    )
}

/// A request is an object with these four members.
proof fn lemma_rpc_request(method: Seq<char>, params: json::JsonView)
    ensures
        rpc_request(method, params) == json::JsonView::Object(
            map![
                "id"@ => json::JsonView::Text("1"@),
                "jsonrpc"@ => json::JsonView::Text("2.0"@),
                "method"@ => json::JsonView::Text(method),
                "params"@ => params,
            ],
        ),
{
    json::lemma_object_of_four(
        ("id"@, json::JsonView::Text("1"@)),
        ("jsonrpc"@, json::JsonView::Text("2.0"@)),
        ("method"@, json::JsonView::Text(method)),
        ("params"@, params),
    );
}

/// The parameters of a get method that takes no arguments.
pub open spec fn get_method_params(address: Seq<char>, method: Seq<char>) -> json::JsonView {
    json::object_of(
        seq![
            ("address"@, json::JsonView::Text(address)),
            ("method"@, json::JsonView::Text(method)),
            ("stack"@, json::JsonView::Array(seq![])),
        ],
    )
}

/// The parameters that carry a message to send.
pub open spec fn send_boc_params(boc: Seq<char>) -> json::JsonView {
    json::object_of(seq![("boc"@, json::JsonView::Text(boc))])
}

/// The stack in the payload of a get method's answer: the member `stack` of an
/// object, or the only item of an array.
pub open spec fn stack_of(payload: json::JsonView) -> Option<Seq<json::JsonView>> {
    let stack = match payload {
        json::JsonView::Array(items) => if items.len() == 1 {
            Some(items[0])
        } else {
            None
        },
        _ => payload.member("stack"@),
    };
    match stack {
        Some(json::JsonView::Array(items)) => Some(items),
        _ => None,
    }
}

/// The payload of an answer: its member `result`, or all of it where it has
/// none.
pub open spec fn payload_of(answer: json::JsonView) -> json::JsonView {
    match answer.member("result"@) {
        Some(result) => result,
        None => answer,
    }
}

/// The numeral in a stack entry that is a number: either the pair of `num` and
/// the numeral, or an object of type `num` with the numeral as its value.
pub open spec fn entry_numeral(entry: json::JsonView) -> Option<Seq<char>> {
    match entry {
        json::JsonView::Array(items) => if items.len() == 2 && items[0] == json::JsonView::Text(
            "num"@,
        ) {
            match items[1] {
                json::JsonView::Text(numeral) => Some(numeral),
                _ => None,
            }
        } else {
            None
        },
        _ => if entry.text_member("type"@) == Some("num"@) {
            entry.text_member("value"@)
        } else {
            None
        },
    }
}

/// The numeral in the first stack entry that is a number.
pub open spec fn first_numeral(stack: Seq<json::JsonView>) -> Option<Seq<char>>
    decreases stack.len(),
{
    if stack.len() == 0 {
        None
    } else {
        match entry_numeral(stack[0]) {
            Some(numeral) => Some(numeral),
            None => first_numeral(stack.skip(1)),
        }
    }
}

/// The value of a hexadecimal numeral, its `0x` left out; 0 where it is none or
/// does not fit a `u32`.
pub open spec fn hex_value(numeral: Seq<char>) -> int {
    match text::unsigned_value(text::without_prefixes(numeral, "0x"@), 16, u32::MAX as int) {
        Some(n) => n,
        None => 0,
    }
}

/// The sequence number that a stack holds: its first number, or 0.
pub open spec fn stack_seqno(stack: Seq<json::JsonView>) -> int {
    match first_numeral(stack) {
        Some(numeral) => hex_value(numeral),
        None => 0,
    }
}

/// The payload of an answer holds no stack.
#[derive(Clone, Copy, Debug, PartialEq, Eq, Structural)]
pub struct PayloadError;

impl PayloadError {
    /// What the missing stack is reported as.
    pub fn message(&self) -> (r: String)
        ensures
            r@ == "Failed to parse runGetMethod response payload"@,
    {
        "Failed to parse runGetMethod response payload".to_owned()
    }
}

/// Reads a hexadecimal numeral.
fn read_hex(numeral: &str) -> (r: u32)
    ensures
        r == hex_value(numeral@),
{
    let digits: Vec<char> = text::trim_prefixes(&text::chars_of(numeral), &text::chars_of("0x"));
    match text::parse_unsigned(&digits, 16, u32::MAX as u64) {
        Some(n) => n as u32,
        None => 0,
    }
}

/// The numeral in a stack entry that is a number.
fn numeral_in(entry: &Json) -> (r: Option<&String>)
    ensures
        match r {
            Some(numeral) => entry_numeral(entry@) == Some(numeral@),
            None => entry_numeral(entry@) is None,
        },
{
    match entry {
        Json::Array(items) => {
            if items.len() == 2 {
                assert(entry@->Array_0[0] == items@[0]@);
                assert(entry@->Array_0[1] == items@[1]@);
                match (&items[0], &items[1]) {
                    (Json::Text(kind), Json::Text(numeral)) => {
                        if text::same_text(kind.as_str(), "num") {
                            Some(numeral)
                        } else {
                            None
                        }
                    },
                    _ => None,
                }
            } else {
                None
            }
        },
        _ => match entry.get_text("type") {
            Some(kind) => {
                if text::same_text(kind.as_str(), "num") {
                    entry.get_text("value")
                } else {
                    None
                }
            },
            None => None,
        },
    }
}

impl ToncenterClient {
    /// The headers of a request: the given ones, and the API key where there is
    /// one.
    pub fn apply_auth(&self, headers: Vec<(String, String)>) -> (r: Vec<(String, String)>)
        ensures
            match self.api_key {
                Some(key) => r@.len() == headers@.len() + 1 && r@.drop_last() == headers@
                    && r@.last().0@ == "X-API-Key"@ && r@.last().1 == key,
                None => r == headers,
            },
    {
        let mut all: Vec<(String, String)> = headers;
        if let Some(key) = &self.api_key {
            all.push(("X-API-Key".to_owned(), key.clone()));
            assert(all@.drop_last() =~= headers@);
        }
        all
    }

    /// Where JSON-RPC requests go.
    pub fn jsonrpc_url(&self) -> (r: String)
        ensures
            r@ == self.base_url@ + "/api/v2/jsonRPC"@,
    {
        self.base_url.clone().concat("/api/v2/jsonRPC")
    }

    /// The delay after a failed attempt, in milliseconds.
    pub fn retry_delay(&self, attempt: u32) -> (delay_ms: u128)
        ensures
            delay_ms == self.retry_base_delay_ms * retry::backoff_factor(attempt as nat),
            delay_ms == self.retry_base_delay_ms * pow2(
                if attempt <= 8 {
                    attempt as nat
                } else {
                    8
                },
            ),
    {
        stretched_delay(self.retry_base_delay_ms, attempt)
    }

    /// Starts a call with the given payload.
    pub fn post_jsonrpc_with_retry(&self, payload: Json, operation: &str) -> (r: RpcCall)
        ensures
            r.wf(),
            r.starts(*self, payload@, operation@),
            r.url@ == self.base_url@ + "/api/v2/jsonRPC"@,
            r.payload == payload,
            r.operation@ == operation@,
            r.attempts.attempt == 0,
            r.attempts.max_retries == self.max_retries,
            r.retry_base_delay_ms == self.retry_base_delay_ms,
            match self.api_key {
                Some(key) => r.headers@.len() == 1 && r.headers@[0].0@ == "X-API-Key"@
                    && r.headers@[0].1 == key,
                None => r.headers@.len() == 0,
            },
    {
        RpcCall {
            url: self.jsonrpc_url(),
            headers: self.apply_auth(Vec::new()),
            payload,
            operation: operation.to_owned(),
            attempts: Attempts::first(self.max_retries),
            retry_base_delay_ms: self.retry_base_delay_ms,
        }
    }

    /// Starts a call of a contract's get method.
    pub fn run_get_method(&self, address: &str, method: &str) -> (r: RpcCall)
        ensures
            r.wf(),
            r.starts(
                *self,
                rpc_request("runGetMethod"@, get_method_params(address@, method@)),
                "runGetMethod"@,
            ),
            r.payload@ == json::JsonView::Object(
                map![
                    "id"@ => json::JsonView::Text("1"@),
                    "jsonrpc"@ => json::JsonView::Text("2.0"@),
                    "method"@ => json::JsonView::Text("runGetMethod"@),
                    "params"@ => json::JsonView::Object(
                        map![
                            "address"@ => json::JsonView::Text(address@),
                            "method"@ => json::JsonView::Text(method@),
                            "stack"@ => json::JsonView::Array(Seq::empty()),
                        ],
                    ),
                ],
            ),
    {
        let no_arguments: Json = Json::Array(Vec::new());
        assert(no_arguments@->Array_0 =~= seq![]);
        let params: Vec<(String, Json)> = vec![
            ("address".to_owned(), Json::text(address)),
            ("method".to_owned(), Json::text(method)),
            ("stack".to_owned(), no_arguments),
        ];
        assert(json::entry_views(params@) =~= seq![
            ("address"@, json::JsonView::Text(address@)),
            ("method"@, json::JsonView::Text(method@)),
            ("stack"@, json::JsonView::Array(seq![])),
        ]);
        proof {
            json::lemma_object_of_three(
                ("address"@, json::JsonView::Text(address@)),
                ("method"@, json::JsonView::Text(method@)),
                ("stack"@, json::JsonView::Array(seq![])),
            );
            lemma_rpc_request("runGetMethod"@, get_method_params(address@, method@));
        }
        self.post_jsonrpc_with_retry(request("runGetMethod", Json::Object(params)), "runGetMethod")
    }

    /// Reads the answer to a call of a get method.
    pub fn read_get_method(answer: Json) -> (r: Result<GetMethodResult, PayloadError>)
        ensures
            match r {
                Ok(result) => stack_of(payload_of(answer@)) == Some(result@),
                Err(_) => stack_of(payload_of(answer@)) is None,
            },
            ({
                let payload = if answer@ is Object && answer@->Object_0.contains_key("result"@) {
                    answer@->Object_0["result"@]
                } else {
                    answer@
                };
                match payload {
                    json::JsonView::Object(members) => match r {
                        Ok(result) => members.contains_key("stack"@) && members["stack"@]
                            == json::JsonView::Array(result@),
                        Err(_) => members.contains_key("stack"@) ==> members["stack"@] !is Array,
                    },
                    json::JsonView::Array(items) => match r {
                        Ok(result) => items == seq![json::JsonView::Array(result@)],
                        Err(_) => items.len() == 1 ==> items[0] !is Array,
                    },
                    _ => r is Err,
                }
            }),
    {
        let payload: Json = answer.into_member("result");
        let stack: Json = match payload {
            Json::Array(mut items) => {
                if items.len() != 1 {
                    return Err(PayloadError);
                }
                assert(payload@->Array_0[0] == items@[0]@);
                items.swap_remove(0)
            },
            other => match other.take_member("stack") {
                Some(stack) => stack,
                None => return Err(PayloadError),
            },
        };
        match stack {
            Json::Array(stack) => Ok(GetMethodResult { stack }),
            _ => Err(PayloadError),
        }
    }

    /// Starts a call that sends a message, given as a bag of cells in base64.
    pub fn send_boc(&self, boc: &str) -> (r: RpcCall)
        ensures
            r.wf(),
            r.starts(*self, rpc_request("sendBoc"@, send_boc_params(boc@)), "sendBoc"@),
            r.payload@ == json::JsonView::Object(
                map![
                    "id"@ => json::JsonView::Text("1"@),
                    "jsonrpc"@ => json::JsonView::Text("2.0"@),
                    "method"@ => json::JsonView::Text("sendBoc"@),
                    "params"@ => json::JsonView::Object(
                        map!["boc"@ => json::JsonView::Text(boc@)],
                    ),
                ],
            ),
    {
        let params: Vec<(String, Json)> = vec![("boc".to_owned(), Json::text(boc))];
        assert(json::entry_views(params@) =~= seq![("boc"@, json::JsonView::Text(boc@))]);
        proof {
            json::lemma_object_of_one(("boc"@, json::JsonView::Text(boc@)));
            lemma_rpc_request("sendBoc"@, send_boc_params(boc@));
        }
        self.post_jsonrpc_with_retry(request("sendBoc", Json::Object(params)), "sendBoc")
    }

    /// Starts a call that asks a wallet for its sequence number.
    pub fn get_wallet_seqno(&self, address: &str) -> (r: RpcCall)
        ensures
            r.wf(),
            r.starts(
                *self,
                rpc_request("runGetMethod"@, get_method_params(address@, "seqno"@)),
                "runGetMethod"@,
            ),
            r.payload@ == json::JsonView::Object(
                map![
                    "id"@ => json::JsonView::Text("1"@),
                    "jsonrpc"@ => json::JsonView::Text("2.0"@),
                    "method"@ => json::JsonView::Text("runGetMethod"@),
                    "params"@ => json::JsonView::Object(
                        map![
                            "address"@ => json::JsonView::Text(address@),
                            "method"@ => json::JsonView::Text("seqno"@),
                            "stack"@ => json::JsonView::Array(Seq::empty()),
                        ],
                    ),
                ],
            ),
    {
        self.run_get_method(address, "seqno")
    }

    /// Reads the sequence number that a wallet answered with.
    pub fn read_wallet_seqno(result: &GetMethodResult) -> (r: u32)
        ensures
            r == stack_seqno(result@),
    {
        let mut i: usize = 0;
        assert(result@.skip(0) =~= result@);
        while i < result.stack.len()
            invariant
                i <= result.stack@.len(),
                first_numeral(result@) == first_numeral(result@.skip(i as int)),
            decreases result.stack@.len() - i,
        {
            assert(result@.skip(i as int)[0] == result.stack@[i as int]@);
            assert(result@.skip(i as int).skip(1) =~= result@.skip(i + 1));
            if let Some(numeral) = numeral_in(&result.stack[i]) {
                return read_hex(numeral.as_str());
            }
            i = i + 1;
        }
        0
    }
}

/// A JSON-RPC request with the given method and parameters.
fn request(method: &str, params: Json) -> (r: Json)
    ensures
        r@ == rpc_request(method@, params@),
{
    let entries: Vec<(String, Json)> = vec![
        ("id".to_owned(), Json::text("1")),
        ("jsonrpc".to_owned(), Json::text("2.0")),
        ("method".to_owned(), Json::text(method)),
        ("params".to_owned(), params),
    ];
    assert(json::entry_views(entries@) =~= seq![
        ("id"@, json::JsonView::Text("1"@)),
        ("jsonrpc"@, json::JsonView::Text("2.0"@)),
        ("method"@, json::JsonView::Text(method@)),
        ("params"@, params@),
    ]);
    Json::Object(entries)
}

// ---------------------------------------------------------------------------
// Laws
// ---------------------------------------------------------------------------

/// An answer that is an object fails the call exactly if it has a member `error`
/// that is not null, and then that member is the error; otherwise the call gives
/// the whole answer. No other member has a part in it.
pub proof fn law_calls_fail_by_the_error_member(
    status: u16,
    body: String,
    members: Map<Seq<char>, json::JsonView>,
    key: Seq<char>,
    value: json::JsonView,
)
    requires
        200 <= status < 300,
        json::json_value(body@) == Some(json::JsonView::Object(members)),
        key != "error"@,
    ensures
        settle(HttpEvent::Answered { status, body }) == if members.contains_key("error"@)
            && members["error"@] != json::JsonView::Null {
            Err::<json::JsonView, RpcErrorView>(RpcErrorView::Rpc(members["error"@]))
        } else {
            Ok::<json::JsonView, RpcErrorView>(json::JsonView::Object(members))
        },
        settle_answer(Some(json::JsonView::Object(members.insert(key, value)))) is Ok
            <==> settle_answer(Some(json::JsonView::Object(members))) is Ok,
        settle_answer(Some(json::JsonView::Object(members.remove(key)))) is Ok <==> settle_answer(
            Some(json::JsonView::Object(members)),
        ) is Ok,
{
}

/// Whether a stack entry is a number with a numeral: the pair of the texts `num`
/// and the numeral, or an object with these as its type and its value.
pub open spec fn is_number(entry: json::JsonView, numeral: Seq<char>) -> bool {
    match entry {
        json::JsonView::Array(items) => items == seq![
            json::JsonView::Text("num"@),
            json::JsonView::Text(numeral),
        ],
        json::JsonView::Object(members) => {
            &&& members.contains_key("type"@)
            &&& members["type"@] == json::JsonView::Text("num"@)
            &&& members.contains_key("value"@)
            &&& members["value"@] == json::JsonView::Text(numeral)
        },
        _ => false,
    }
}

/// An entry has a numeral exactly if it is a number with it.
proof fn lemma_numeral_of_number(entry: json::JsonView)
    ensures
        forall|numeral: Seq<char>| #[trigger]
            is_number(entry, numeral) ==> entry_numeral(entry) == Some(numeral),
        (forall|numeral: Seq<char>| !#[trigger] is_number(entry, numeral)) ==> entry_numeral(
            entry,
        ) is None,
{
    if entry_numeral(entry) is Some {
        let numeral = entry_numeral(entry)->0;
        match entry {
            json::JsonView::Array(items) => {
                assert(items =~= seq![
                    json::JsonView::Text("num"@),
                    json::JsonView::Text(numeral),
                ]);
            },
            _ => {},
        }
        assert(is_number(entry, numeral));
    }
}

/// The first number decides, whatever comes behind it.
proof fn lemma_first_number(
    before: Seq<json::JsonView>,
    entry: json::JsonView,
    after: Seq<json::JsonView>,
    numeral: Seq<char>,
)
    requires
        forall|i: int, other: Seq<char>|
            0 <= i < before.len() ==> !#[trigger] is_number(before[i], other),
        is_number(entry, numeral),
    ensures
        first_numeral(before + seq![entry] + after) == Some(numeral),
        first_numeral(before) is None,
    decreases before.len(),
{
    let stack = before + seq![entry] + after;
    if before.len() == 0 {
        assert(stack[0] == entry);
        lemma_numeral_of_number(entry);
    } else {
        let rest = before.skip(1);
        assert(stack[0] == before[0]);
        lemma_numeral_of_number(before[0]);
        assert forall|other: Seq<char>| !#[trigger] is_number(before[0], other) by {}
        assert forall|i: int, other: Seq<char>| 0 <= i < rest.len() implies !#[trigger] is_number(
            rest[i],
            other,
        ) by {
            assert(rest[i] == before[i + 1]);
            assert(!is_number(before[i + 1], other));
        }
        lemma_first_number(rest, entry, after, numeral);
        assert(stack.skip(1) =~= rest + seq![entry] + after);
    }
}

/// The numeral of the first number decides: every `0x` at its start is left out,
/// and what is left is read as a hexadecimal number, or counts as 0 where it is
/// none that fits a `u32`.
pub proof fn law_first_number_is_the_seqno(
    before: Seq<json::JsonView>,
    entry: json::JsonView,
    after: Seq<json::JsonView>,
    numeral: Seq<char>,
)
    requires
        forall|i: int|
            0 <= i < before.len() ==> match #[trigger] before[i] {
                json::JsonView::Array(items) => !(items.len() == 2 && items[0]
                    == json::JsonView::Text("num"@) && items[1] is Text),
                json::JsonView::Object(members) => !(members.contains_key("type"@)
                    && members["type"@] == json::JsonView::Text("num"@) && members.contains_key(
                    "value"@,
                ) && members["value"@] is Text),
                _ => true,
            },
        match entry {
            json::JsonView::Array(items) => items == seq![
                json::JsonView::Text("num"@),
                json::JsonView::Text(numeral),
            ],
            json::JsonView::Object(members) => members.contains_key("type"@) && members["type"@]
                == json::JsonView::Text("num"@) && members.contains_key("value"@)
                && members["value"@] == json::JsonView::Text(numeral),
            _ => false,
        },
    ensures
        stack_seqno(before + seq![entry] + after) == match text::unsigned_value(
            text::without_prefixes(numeral, "0x"@),
            16,
            0xffff_ffff,
        ) {
            Some(n) => n,
            None => 0,
        },
        stack_seqno(before) == 0,
{
    assert forall|i: int, other: Seq<char>| 0 <= i < before.len() implies !#[trigger] is_number(
        before[i],
        other,
    ) by {
        if is_number(before[i], other) {
            match before[i] {
                json::JsonView::Array(items) => {
                    assert(items.len() == 2);
                    assert(items[0] == json::JsonView::Text("num"@));
                    assert(items[1] == json::JsonView::Text(other));
                },
                _ => {},
            }
        }
    }
    lemma_first_number(before, entry, after, numeral);
}

/// The sequence number is read back from the first number on the stack, written
/// in hexadecimal with or without `0x` before it; one that does not fit a `u32`
/// counts as 0. What is on the stack besides has no part in it.
pub proof fn law_seqno_is_read_back(
    before: Seq<json::JsonView>,
    entry: json::JsonView,
    after: Seq<json::JsonView>,
    n: nat,
)
    requires
        forall|i: int, other: Seq<char>|
            0 <= i < before.len() ==> !#[trigger] is_number(before[i], other),
        is_number(entry, "0x"@ + text::numeral(n, 16)) || is_number(entry, text::numeral(n, 16)),
    ensures
        stack_seqno(before + seq![entry] + after) == if n <= u32::MAX {
            n as int
        } else {
            0
        },
        stack_seqno(before) == 0,
{
    let digits = text::numeral(n, 16);
    reveal_strlit("0x");
    assert("0x"@ =~= seq!['0', 'x']);
    text::lemma_numeral(n, 16);
    text::law_numerals_read_back(n, 16, u32::MAX as nat);
    text::law_prefixes_are_taken_away(digits, "0x"@);
    assert forall|rest: Seq<char>| digits != #[trigger] ("0x"@ + rest) by {
        if digits == "0x"@ + rest {
            assert(digits[1] == 'x');
            assert(text::is_digit(digits[1], 16));
        }
    }
    if is_number(entry, "0x"@ + digits) {
        lemma_first_number(before, entry, after, "0x"@ + digits);
    } else {
        lemma_first_number(before, entry, after, digits);
    }
}

/// A first number whose numeral is none counts as 0.
pub proof fn law_unreadable_seqno_is_zero(
    before: Seq<json::JsonView>,
    entry: json::JsonView,
    after: Seq<json::JsonView>,
    numeral: Seq<char>,
    i: int,
)
    requires
        forall|i: int, other: Seq<char>|
            0 <= i < before.len() ==> !#[trigger] is_number(before[i], other),
        is_number(entry, numeral),
        !(exists|rest: Seq<char>| numeral == #[trigger] ("0x"@ + rest)),
        numeral.len() == 0 || {
            &&& 0 <= i < numeral.len()
            &&& !(i == 0 && numeral[i] == '+')
            &&& !('0' <= numeral[i] && numeral[i] <= '9')
            &&& !('a' <= numeral[i] && numeral[i] <= 'f')
            &&& !('A' <= numeral[i] && numeral[i] <= 'F')
        },
    ensures
        stack_seqno(before + seq![entry] + after) == 0,
{
    reveal_strlit("0x");
    lemma_first_number(before, entry, after, numeral);
    text::law_prefixes_are_taken_away(numeral, "0x"@);
    text::law_other_texts_are_no_numerals(numeral, 16, u32::MAX as int, i);
}

} // verus!
