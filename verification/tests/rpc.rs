use ton_faucet::client::{
    judge_answer, GetMethodResult, HttpEvent, PayloadError, RpcCall, RpcError, RpcStep, SendFailure,
    ToncenterClient,
};
use ton_faucet::config::{Config, EnvVars, Tuning};
use ton_faucet::json::{read_json, to_value, Json};

fn client(key: Option<&str>, max_retries: u32) -> ToncenterClient {
    let config = Config::from_env(
        EnvVars {
            database_url: None,
            mnemonic: String::new(),
            toncenter_api_key: key.map(|k| k.to_string()),
            toncenter_url: Some("http://host".to_string()),
            port: None,
            faucet_amount: None,
            pow_difficulty: None,
        },
        Tuning {
            toncenter_timeout_seconds: 15,
            toncenter_connect_timeout_seconds: 5,
            toncenter_max_retries: max_retries,
            toncenter_retry_base_delay_ms: 10,
            worker_max_retries: 1,
            worker_retry_base_delay_ms: 1,
        },
    );
    ToncenterClient::new(&config)
}

fn answered(status: u16, body: &str) -> HttpEvent {
    HttpEvent::Answered { status, body: body.to_string() }
}

fn failed(timeout: bool, connect: bool, request: bool) -> HttpEvent {
    HttpEvent::SendFailed(SendFailure { timeout, connect, request })
}

/// The value as serde_json knows it.
fn value(json: &Json) -> serde_json::Value {
    match json {
        Json::Null => serde_json::Value::Null,
        Json::Bool(b) => serde_json::Value::from(*b),
        Json::Int(n) => serde_json::Value::from(*n),
        Json::Number(n) => serde_json::Value::Number(n.clone()),
        Json::Text(s) => serde_json::Value::from(s.as_str()),
        Json::Array(items) => serde_json::Value::from(items.iter().map(value).collect::<Vec<_>>()),
        Json::Object(entries) => serde_json::Value::Object(
            entries.iter().map(|(k, v)| (k.clone(), value(v))).collect(),
        ),
    }
}

fn parsed(text: &str) -> serde_json::Value {
    serde_json::from_str(text).unwrap()
}

fn stack(text: &str) -> GetMethodResult {
    match read_json(text).unwrap() {
        Json::Array(stack) => GetMethodResult { stack },
        other => panic!("{:?}", other),
    }
}

fn seqno(text: &str) -> u32 {
    ToncenterClient::read_wallet_seqno(&stack(text))
}

#[test]
fn json_texts_read_as_serde_json_reads_them() {
    let texts = [
        "null", "true", "-5", "9223372036854775807", "9223372036854775808", "1.5", "1e5",
        "\"a\\n\\u00e9\"", "[]", "{}", "[1,[2,[\"x\",null]],{\"k\":{}}]",
        " { \"b\" : [ true , { \"c\" : 1.25 } ] , \"a\" : -0.5 } ",
    ];
    for text in texts {
        assert_eq!(value(&read_json(text).unwrap()), parsed(text), "{}", text);
    }
    let nested = format!("{}{}", "[".repeat(127), "]".repeat(127));
    assert_eq!(value(&read_json(&nested).unwrap()), parsed(&nested));
}

#[test]
fn values_are_written_as_serde_json_writes_them() {
    let texts = [
        "null", "false", "-5", "9223372036854775808", "-9223372036854775808", "1.5", "1e300",
        "\"a\\n\\u00e9\\u0001\"", "[]", "{}", "[1,[2.5,[\"x\",null]],{\"k\":{}}]",
        "{\"b\":[true,{\"c\":1.25e-7}],\"a\":-0.5,\"\":18446744073709551615}",
    ];
    for text in texts {
        let json = read_json(text).unwrap();
        assert_eq!(to_value(&json), parsed(text), "{}", text);
        assert_eq!(json.to_text(), parsed(text).to_string());
        assert_eq!(json.to_debug_text(), format!("{:?}", parsed(text)));
    }
}

#[test]
fn last_member_of_a_key_counts() {
    let json = Json::Object(vec![
        ("b".to_string(), Json::number(1)),
        ("a".to_string(), Json::number(2)),
        ("b".to_string(), Json::text("x")),
    ]);
    assert!(json.get_int("b").is_none());
    assert_eq!(json.get_text("b").map(|s| s.as_str()), Some("x"));
    assert_eq!(json.get_int("a"), Some(2));
    assert_eq!(json.to_text(), "{\"a\":2,\"b\":\"x\"}");
    assert_eq!(json.to_debug_text(), "Object {\"a\": Number(2), \"b\": String(\"x\")}");
}

#[test]
fn whole_numbers_are_found_in_either_form() {
    let number = |n: i64| Json::Object(vec![("n".to_string(), Json::Number(n.into()))]);
    assert_eq!(number(429).get_int("n"), Some(429));
    assert_eq!(number(i64::MIN).get_int("n"), Some(i64::MIN));
    assert!(read_json("{\"n\":9223372036854775808}").unwrap().get_int("n").is_none());
    assert!(read_json("{\"n\":5.0}").unwrap().get_int("n").is_none());
}

#[test]
fn retry_says_what_failed() {
    match call(1).on_event(answered(200, "{\"error\":{\"code\":502}}")) {
        RpcStep::Retry { delay_ms: 10, error: RpcError::Rpc(error) } => {
            assert_eq!(error.get_int("code"), Some(502));
        }
        other => panic!("{:?}", other),
    }
    assert!(matches!(
        call(1).on_event(answered(429, "")),
        RpcStep::Retry { error: RpcError::Status { status: 429, .. }, .. }
    ));
}

#[test]
fn nested_numbers_are_read_once() {
    for mantissa in ["1.7976931348623157", "9.9999999999999991", "6.0221407612345678", "2.2250738585072011"] {
        for exponent in [-300, -210, -101, -29, -23, 22, 37, 111, 250, 307] {
            let text = format!("{}e{}", mantissa, exponent);
            let held = parsed(&text).to_string();
            let nested = format!("[[{{\"a\":[[[{}]]]}}]]", text);
            let document = read_json(&nested).unwrap();
            let mut json = &document;
            loop {
                json = match json {
                    Json::Array(items) => &items[0],
                    Json::Object(entries) => &entries[0].1,
                    Json::Number(n) => {
                        assert_eq!(n.to_string(), held, "{}", text);
                        break;
                    }
                    other => panic!("{:?}", other),
                };
            }
        }
    }
}

#[test]
fn parser_error_is_handed_on() {
    let error = read_json("[1,").unwrap_err();
    let words = error.cause.to_string();
    assert!(words.contains("EOF"));
    match judge_answer(Err(error)) {
        Err(RpcError::Parse(e)) => assert_eq!(e.cause.to_string(), words),
        other => panic!("{:?}", other),
    }
}

#[test]
fn statuses_are_put_in_words() {
    let words = |status| RpcError::Status { status, body: "b".to_string() }.message("op");
    assert_eq!(
        words(503),
        "TonCenter API returned status: 503 Service Unavailable for op. Error: b"
    );
    assert_eq!(
        words(599),
        "TonCenter API returned status: 599 <unknown status code> for op. Error: b"
    );
    assert_eq!(words(100), "TonCenter API returned status: 100 Continue for op. Error: b");
}

#[test]
fn missing_stack_is_put_in_words() {
    assert_eq!(PayloadError.message(), "Failed to parse runGetMethod response payload");
}

#[test]
fn texts_that_are_no_json_are_refused() {
    for text in ["", "{", "[1,]", "nul", "1 2", "{\"a\" 1}", "'a'"] {
        assert!(read_json(text).is_err(), "{}", text);
        assert!(serde_json::from_str::<serde_json::Value>(text).is_err());
    }
    assert!(read_json(&format!("{}{}", "[".repeat(128), "]".repeat(128))).is_err());
}

#[test]
fn members_are_found_in_objects_only() {
    let json = read_json("{\"a\":1,\"b\":\"t\",\"c\":false,\"d\":null,\"a\":2}").unwrap();
    assert_eq!(json.get_int("a"), Some(2));
    assert_eq!(json.get_text("b").map(|s| s.as_str()), Some("t"));
    assert_eq!(json.get_bool("c"), Some(false));
    assert!(matches!(json.get("d"), Some(Json::Null)));
    assert!(json.get("e").is_none());
    assert!(json.get_int("b").is_none());
    assert!(read_json("[1]").unwrap().get("a").is_none());
    assert!(read_json("\"a\"").unwrap().get("a").is_none());
}

#[test]
fn statuses_are_retried_as_the_server_asks() {
    for status in [429, 500, 503, 599] {
        assert!(ToncenterClient::is_retryable_status(status));
    }
    for status in [200, 301, 400, 404, 428, 430, 499, 600] {
        assert!(!ToncenterClient::is_retryable_status(status));
    }
}

#[test]
fn transport_failures_are_retried() {
    let failure = |timeout, connect, request| SendFailure { timeout, connect, request };
    assert!(ToncenterClient::is_retryable_error(&failure(true, false, false)));
    assert!(ToncenterClient::is_retryable_error(&failure(false, true, false)));
    assert!(ToncenterClient::is_retryable_error(&failure(false, false, true)));
    assert!(!ToncenterClient::is_retryable_error(&failure(false, false, false)));
}

#[test]
fn rpc_errors_are_retried_by_code_or_message() {
    let retried = [
        "{\"code\":429}",
        "{\"code\":500}",
        "{\"code\":9223372036854775807}",
        "{\"code\":1,\"message\":\"RATE LIMIT hit\"}",
        "{\"message\":\"Too Many Requests\"}",
        "{\"message\":\"lite server timeout: x\"}",
        "{\"message\":\"Temporarily down\"}",
    ];
    for text in retried {
        assert!(ToncenterClient::is_retryable_rpc_error(&read_json(text).unwrap()), "{}", text);
    }
    let given_up = [
        "{\"code\":499}",
        "{\"code\":-32000}",
        "{\"code\":\"500\"}",
        "{\"code\":500.5}",
        "{\"message\":\"rate-limit\"}",
        "{\"message\":5}",
        "{\"message\":\"\"}",
        "{}",
        "\"timeout\"",
        "[500]",
    ];
    for text in given_up {
        assert!(!ToncenterClient::is_retryable_rpc_error(&read_json(text).unwrap()), "{}", text);
    }
}

#[test]
fn get_method_call_carries_address_and_method() {
    let call = client(Some("secret"), 2).run_get_method("EQabc", "seqno");
    assert_eq!(call.url, "http://host/api/v2/jsonRPC");
    assert_eq!(call.headers, vec![("X-API-Key".to_string(), "secret".to_string())]);
    assert_eq!(call.operation, "runGetMethod");
    assert_eq!(
        value(&call.payload),
        parsed(
            "{\"id\":\"1\",\"jsonrpc\":\"2.0\",\"method\":\"runGetMethod\",\
             \"params\":{\"address\":\"EQabc\",\"method\":\"seqno\",\"stack\":[]}}"
        )
    );
    let same = client(Some("secret"), 2).get_wallet_seqno("EQabc");
    assert_eq!(value(&same.payload), value(&call.payload));
}

#[test]
fn send_call_carries_the_message() {
    let call = client(None, 2).send_boc("te6c");
    assert!(call.headers.is_empty());
    assert_eq!(call.operation, "sendBoc");
    assert_eq!(
        value(&call.payload),
        parsed(
            "{\"id\":\"1\",\"jsonrpc\":\"2.0\",\"method\":\"sendBoc\",\"params\":{\"boc\":\"te6c\"}}"
        )
    );
}

#[test]
fn auth_header_comes_after_the_others() {
    let given = vec![("a".to_string(), "b".to_string())];
    assert_eq!(client(None, 0).apply_auth(given.clone()), given);
    let with_key = client(Some("k"), 0).apply_auth(given.clone());
    assert_eq!(with_key[0], given[0]);
    assert_eq!(with_key[1], ("X-API-Key".to_string(), "k".to_string()));
    assert_eq!(with_key.len(), 2);
}

#[test]
fn client_takes_its_settings() {
    let client = client(None, 7);
    assert_eq!(client.timeout_seconds, 15);
    assert_eq!(client.connect_timeout_seconds, 5);
    assert_eq!(client.max_retries, 7);
    assert_eq!(client.retry_base_delay_ms, 10);
    assert_eq!(client.retry_delay(0), 10);
    assert_eq!(client.retry_delay(3), 80);
    assert_eq!(client.retry_delay(20), 2560);
}

#[test]
fn delays_do_not_overflow() {
    let mut client = client(None, 7);
    client.retry_base_delay_ms = u64::MAX;
    assert_eq!(client.retry_delay(8), u64::MAX as u128 * 256);
}

fn call(max_retries: u32) -> RpcCall {
    client(None, max_retries).send_boc("x")
}

#[test]
fn passing_failures_are_retried_with_growing_delays() {
    let mut call = call(3);
    assert!(matches!(call.on_event(failed(true, false, false)), RpcStep::Retry { delay_ms: 10, .. }));
    assert!(matches!(call.on_event(answered(502, "")), RpcStep::Retry { delay_ms: 20, .. }));
    let limited = answered(200, "{\"error\":{\"code\":429}}");
    assert!(matches!(call.on_event(limited), RpcStep::Retry { delay_ms: 40, .. }));
    match call.on_event(answered(200, "{\"ok\":true,\"error\":null}")) {
        RpcStep::Done(answer) => assert_eq!(answer.get_bool("ok"), Some(true)),
        other => panic!("{:?}", other),
    }
}

#[test]
fn retries_run_out() {
    let mut call = call(1);
    assert!(matches!(call.on_event(answered(500, "a")), RpcStep::Retry { delay_ms: 10, .. }));
    match call.on_event(answered(500, "b")) {
        RpcStep::Fail(RpcError::Status { status, body }) => {
            assert_eq!(status, 500);
            assert_eq!(body, "b");
        }
        other => panic!("{:?}", other),
    }
    assert!(matches!(
        self::call(0).on_event(failed(true, true, true)),
        RpcStep::Fail(RpcError::Send(_))
    ));
}

#[test]
fn lasting_failures_are_not_retried() {
    assert!(matches!(
        call(5).on_event(failed(false, false, false)),
        RpcStep::Fail(RpcError::Send(_))
    ));
    assert!(matches!(call(5).on_event(HttpEvent::BodyFailed), RpcStep::Fail(RpcError::ReadBody)));
    assert!(matches!(
        call(5).on_event(answered(404, "{}")),
        RpcStep::Fail(RpcError::Status { status: 404, .. })
    ));
    assert!(matches!(
        call(5).on_event(answered(200, "<html>")),
        RpcStep::Fail(RpcError::Parse(_))
    ));
    match call(5).on_event(answered(200, "{\"error\":{\"code\":-1,\"message\":\"no\"}}")) {
        RpcStep::Fail(RpcError::Rpc(error)) => assert_eq!(error.get_int("code"), Some(-1)),
        other => panic!("{:?}", other),
    }
}

#[test]
fn answers_are_judged_by_their_error_member() {
    let judged = |text: &str| judge_answer(read_json(text));
    assert!(judged("{\"result\":1}").is_ok());
    assert!(judged("[{\"error\":1}]").is_ok());
    assert!(judged("{\"error\":null}").is_ok());
    assert!(matches!(judged("{\"error\":false}"), Err(RpcError::Rpc(Json::Bool(false)))));
    assert!(matches!(judged("{\"error\":\"x\"}"), Err(RpcError::Rpc(Json::Text(_)))));
    assert!(matches!(judged("{"), Err(RpcError::Parse(_))));
}

#[test]
fn failures_are_reported_in_words() {
    let failure = SendFailure { timeout: true, connect: false, request: false };
    assert_eq!(RpcError::Send(failure).message("sendBoc"), "Failed to send sendBoc request");
    assert_eq!(RpcError::ReadBody.message("op"), "Failed to read op response body");
    assert_eq!(
        RpcError::Status { status: 404, body: "gone".to_string() }.message("op"),
        "TonCenter API returned status: 404 Not Found for op. Error: gone"
    );
    assert_eq!(
        RpcError::Parse(read_json("{").unwrap_err()).message("op"),
        "Failed to parse op response as JSON"
    );
    assert_eq!(
        RpcError::Rpc(read_json("{ \"m\" : \"q\\\"\", \"code\":1.50 }").unwrap()).message("op"),
        "TonCenter JSON-RPC error for op: {\"code\":1.5,\"m\":\"q\\\"\"}"
    );
}

#[test]
fn get_method_answers_are_read() {
    let stack_len = |text: &str| {
        ToncenterClient::read_get_method(read_json(text).unwrap()).map(|r| r.stack.len())
    };
    assert_eq!(stack_len("{\"result\":{\"stack\":[1,2],\"gas_used\":5}}"), Ok(2));
    assert_eq!(stack_len("{\"stack\":[]}"), Ok(0));
    assert_eq!(stack_len("{\"result\":[[1,2,3]]}"), Ok(3));
    for text in [
        "{\"result\":null,\"stack\":[]}",
        "{\"result\":{}}",
        "{\"result\":{\"stack\":null}}",
        "{\"result\":[]}",
        "{\"result\":[[],[]]}",
        "{\"result\":[1]}",
        "5",
    ] {
        assert!(stack_len(text).is_err(), "{}", text);
    }
}

#[test]
fn seqno_is_the_first_number_on_the_stack() {
    assert_eq!(seqno("[[\"num\",\"0x1f\"]]"), 31);
    assert_eq!(seqno("[[\"cell\",\"0x2\"],[\"num\",\"a\"],[\"num\",\"0x3\"]]"), 10);
    assert_eq!(seqno("[{\"type\":\"num\",\"value\":\"0xFF\"}]"), 255);
    assert_eq!(seqno("[{\"type\":\"num\"},{\"type\":\"num\",\"value\":\"7\"}]"), 7);
    assert_eq!(seqno("[[\"num\",5],[\"num\",\"1\",\"2\"],[\"num\",\"9\"]]"), 9);
    assert_eq!(seqno("[]"), 0);
    assert_eq!(seqno("[5,\"num\",null]"), 0);
}

#[test]
fn seqno_numerals_read_as_the_standard_library_reads_them() {
    for numeral in ["0x0x10", "0xffffffff", "0x100000000", "", "0x", "-1", "+1f", "0X10", "1g", "x0x1"] {
        let expected = u32::from_str_radix(numeral.trim_start_matches("0x"), 16).unwrap_or(0);
        assert_eq!(seqno(&format!("[[\"num\",\"{}\"]]", numeral)), expected, "{}", numeral);
    }
}
