use rpc_privacy_proxy::forward::{
    backoff_ms, classify_status, on_body, on_status, on_transport_failure, AttemptOutcome,
    ForwardStep, RetryState, StatusClass, StatusVerdict, BASE_BACKOFF_MS,
};
use rpc_privacy_proxy::json::Json;

/// What the upstream does on one attempt.
enum Reply {
    Refused(&'static str),
    Status(u16, &'static str, Result<Json, &'static str>),
}

/// Runs a forwarding call against a scripted upstream; returns the result,
/// the pauses made and the number of attempts.
fn run(max_attempts: usize, script: Vec<Reply>) -> (Result<Json, String>, Vec<u64>, usize) {
    let mut state = RetryState::new(max_attempts);
    let mut pauses = Vec::new();
    let mut attempts = 0;
    let mut script = script.into_iter();
    loop {
        assert_eq!(state.attempt(), attempts);
        attempts += 1;
        let outcome = match script.next().expect("the upstream was called too often") {
            Reply::Refused(message) => on_transport_failure(message.to_string()),
            Reply::Status(code, text, body) => match on_status(code, text) {
                StatusVerdict::Settled(outcome) => outcome,
                StatusVerdict::ReadBody => on_body(body.map_err(|e| e.to_string())),
            },
        };
        match state.next(outcome) {
            ForwardStep::Retry { state: next, backoff_ms } => {
                pauses.push(backoff_ms);
                state = next;
            }
            ForwardStep::Done(result) => return (result, pauses, attempts),
        }
    }
}

fn server_error() -> Reply {
    Reply::Status(500, "500 Internal Server Error", Ok(Json::Null))
}

fn answer() -> Json {
    Json::Object(vec![("result".to_string(), Json::Number("42".to_string()))])
}

#[test]
fn two_server_errors_then_success() {
    let script = vec![server_error(), server_error(), Reply::Status(200, "200 OK", Ok(answer()))];
    let (result, pauses, attempts) = run(3, script);
    assert_eq!(result, Ok(answer()));
    assert_eq!(pauses, vec![100, 200]);
    assert_eq!(attempts, 3);
}

#[test]
fn client_error_ends_at_once() {
    let script = vec![Reply::Status(400, "400 Bad Request", Ok(answer()))];
    let (result, pauses, attempts) = run(3, script);
    assert_eq!(result, Err("upstream client error: 400 Bad Request".to_string()));
    assert_eq!(pauses, Vec::<u64>::new());
    assert_eq!(attempts, 1);
}

#[test]
fn exhausted_attempts_carry_the_last_error() {
    let script = vec![
        Reply::Refused("connection refused"),
        Reply::Status(502, "502 Bad Gateway", Ok(Json::Null)),
        Reply::Status(503, "503 Service Unavailable", Ok(Json::Null)),
    ];
    let (result, pauses, attempts) = run(3, script);
    assert_eq!(result, Err("upstream server error: 503 Service Unavailable".to_string()));
    assert_eq!(pauses, vec![100, 200]);
    assert_eq!(attempts, 3);

    let script = vec![server_error(), Reply::Refused("timed out")];
    let (result, pauses, attempts) = run(2, script);
    assert_eq!(result, Err("timed out".to_string()));
    assert_eq!(pauses, vec![100]);
    assert_eq!(attempts, 2);
}

#[test]
fn at_least_one_attempt_is_made() {
    for max_attempts in [0, 1] {
        let (result, pauses, attempts) = run(max_attempts, vec![server_error()]);
        assert_eq!(result, Err("upstream server error: 500 Internal Server Error".to_string()));
        assert_eq!(pauses, Vec::<u64>::new());
        assert_eq!(attempts, 1);

        let (result, _, attempts) = run(max_attempts, vec![Reply::Status(200, "200 OK", Ok(answer()))]);
        assert_eq!(result, Ok(answer()));
        assert_eq!(attempts, 1);
    }
}

#[test]
fn a_body_that_is_no_json_is_final() {
    let script = vec![Reply::Status(200, "200 OK", Err("expected value at line 1 column 1"))];
    let (result, pauses, attempts) = run(5, script);
    assert_eq!(result, Err("expected value at line 1 column 1".to_string()));
    assert_eq!(pauses, Vec::<u64>::new());
    assert_eq!(attempts, 1);
}

#[test]
fn a_later_client_error_ends_the_retries() {
    let script = vec![server_error(), Reply::Status(404, "404 Not Found", Ok(Json::Null)), server_error()];
    let (result, pauses, attempts) = run(5, script);
    assert_eq!(result, Err("upstream client error: 404 Not Found".to_string()));
    assert_eq!(pauses, vec![100]);
    assert_eq!(attempts, 2);
}

#[test]
fn pauses_grow_by_the_base() {
    let script = (0..6).map(|_| Reply::Refused("refused")).collect();
    let (result, pauses, attempts) = run(6, script);
    assert_eq!(result, Err("refused".to_string()));
    assert_eq!(pauses, vec![100, 200, 300, 400, 500]);
    assert_eq!(attempts, 6);
    assert_eq!(BASE_BACKOFF_MS, 100);
    assert_eq!(backoff_ms(0), 100);
    assert_eq!(backoff_ms(1), 200);
    assert_eq!(backoff_ms(9), 1_000);
}

#[test]
fn pauses_do_not_overflow() {
    let last_exact = (u64::MAX / 100 - 1) as usize;
    assert_eq!(backoff_ms(last_exact), (u64::MAX / 100) * 100);
    assert_eq!(backoff_ms(last_exact + 1), u64::MAX);
    assert_eq!(backoff_ms(usize::MAX), u64::MAX);
}

#[test]
fn status_classes() {
    for code in [500, 501, 503, 599] {
        assert_eq!(classify_status(code), StatusClass::ServerError);
    }
    for code in [400, 401, 404, 429, 499] {
        assert_eq!(classify_status(code), StatusClass::ClientError);
    }
    for code in [100, 200, 204, 301, 399, 600, 999, 0, u16::MAX] {
        assert_eq!(classify_status(code), StatusClass::Other);
    }
}

#[test]
fn verdicts_and_outcomes() {
    assert_eq!(
        on_status(503, "503 Service Unavailable"),
        StatusVerdict::Settled(AttemptOutcome::Retryable(
            "upstream server error: 503 Service Unavailable".to_string()
        ))
    );
    assert_eq!(
        on_status(403, "403 Forbidden"),
        StatusVerdict::Settled(AttemptOutcome::Terminal(
            "upstream client error: 403 Forbidden".to_string()
        ))
    );
    assert_eq!(on_status(200, "200 OK"), StatusVerdict::ReadBody);
    assert_eq!(on_status(302, "302 Found"), StatusVerdict::ReadBody);
    assert_eq!(on_body(Ok(answer())), AttemptOutcome::Success(answer()));
    assert_eq!(on_body(Err("bad".to_string())), AttemptOutcome::Terminal("bad".to_string()));
    assert_eq!(
        on_transport_failure("dns".to_string()),
        AttemptOutcome::Retryable("dns".to_string())
    );
}

#[test]
fn the_generic_failure_message() {
    assert_eq!(RetryState::new(3).exhausted_message(), "request failed");
    match RetryState::new(2).next(AttemptOutcome::Retryable("boom".to_string())) {
        ForwardStep::Retry { state, backoff_ms } => {
            assert_eq!(backoff_ms, 100);
            assert_eq!(state.attempt(), 1);
            assert_eq!(state.exhausted_message(), "boom");
        }
        other => panic!("unexpected step {:?}", other),
    }
}
