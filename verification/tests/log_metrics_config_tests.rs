use rpc_privacy_proxy::cache_key::json_string;
use rpc_privacy_proxy::config::{
    Config, DEFAULT_CACHE_TTL_SECONDS, DEFAULT_REQUEST_TIMEOUT_MS, DEFAULT_RETRY_ATTEMPTS,
};
use rpc_privacy_proxy::json::Json;
use rpc_privacy_proxy::log_events::{LogEvent, LogState};
use rpc_privacy_proxy::metrics::Metrics;
use rpc_privacy_proxy::privacy_mode::PrivacyMode;
use rpc_privacy_proxy::text::{decimal_text, key_less, str_eq};

fn numbered(i: u64) -> LogEvent {
    LogEvent::at(String::new(), "INFO", "REQ_IN").with_latency(i)
}

fn latencies(events: &[LogEvent]) -> Vec<u64> {
    events.iter().map(|e| e.latency_ms.unwrap()).collect()
}

#[test]
fn a_new_event_holds_what_it_was_given() {
    let event = LogEvent::at("2024-01-01T00:00:00+00:00".to_string(), "WARN", "ERR");
    assert_eq!(event.ts, "2024-01-01T00:00:00+00:00");
    assert_eq!(event.level, "WARN");
    assert_eq!(event.event, "ERR");
    assert_eq!(event.request_hash, None);
    assert_eq!(event.method, None);
    assert_eq!(event.latency_ms, None);
    assert_eq!(event.note, None);
}

#[test]
fn a_new_event_is_stamped_with_the_time() {
    let event = LogEvent::new("INFO", "REQ_IN");
    assert_eq!(event.level, "INFO");
    assert_eq!(event.event, "REQ_IN");
    assert_eq!(event.request_hash, None);
    assert_eq!(event.method, None);
    assert_eq!(event.latency_ms, None);
    assert_eq!(event.note, None);
    // RFC 3339 in UTC: a date, `T`, a time and the offset
    assert!(event.ts.len() >= 20, "{}", event.ts);
    assert_eq!(&event.ts[4..5], "-");
    assert_eq!(&event.ts[10..11], "T");
    assert!(event.ts.ends_with("+00:00"), "{}", event.ts);
}

#[test]
fn builders_set_one_field_each() {
    let base = LogEvent::at("t".to_string(), "INFO", "RESP_OUT");
    let event = base.clone().with_hash("abc".to_string());
    assert_eq!(event, LogEvent { request_hash: Some("abc".to_string()), ..base.clone() });
    let event = base.clone().with_method("getSlot".to_string());
    assert_eq!(event, LogEvent { method: Some("getSlot".to_string()), ..base.clone() });
    let event = base.clone().with_latency(17);
    assert_eq!(event, LogEvent { latency_ms: Some(17), ..base.clone() });
    let event = base.clone().with_note("late".to_string());
    assert_eq!(event, LogEvent { note: Some("late".to_string()), ..base.clone() });
    let event = base
        .clone()
        .with_hash("h".to_string())
        .with_method("m".to_string())
        .with_latency(1)
        .with_note("n".to_string())
        .with_hash("h2".to_string());
    assert_eq!(
        event,
        LogEvent {
            ts: "t".to_string(),
            level: "INFO".to_string(),
            event: "RESP_OUT".to_string(),
            request_hash: Some("h2".to_string()),
            method: Some("m".to_string()),
            latency_ms: Some(1),
            note: Some("n".to_string()),
        }
    );
}

#[test]
fn the_log_keeps_the_latest_events() {
    let mut log = LogState::new(3, 16);
    assert_eq!(log.broadcast_capacity(), 16);
    assert!(log.recent(10).is_empty());
    for i in 1..=2 {
        log.record(numbered(i));
    }
    assert_eq!(latencies(&log.recent(10)), vec![1, 2]);
    for i in 3..=5 {
        log.record(numbered(i));
    }
    assert_eq!(latencies(&log.recent(10)), vec![3, 4, 5]);
    assert_eq!(latencies(&log.recent(3)), vec![3, 4, 5]);
    assert_eq!(latencies(&log.recent(2)), vec![4, 5]);
    assert_eq!(latencies(&log.recent(1)), vec![5]);
    assert!(log.recent(0).is_empty());
    assert_eq!(latencies(&log.recent(usize::MAX)), vec![3, 4, 5]);
}

#[test]
fn a_log_without_room_keeps_the_last_event() {
    let mut log = LogState::new(0, 1);
    log.record(numbered(1));
    assert_eq!(latencies(&log.recent(5)), vec![1]);
    log.record(numbered(2));
    assert_eq!(latencies(&log.recent(5)), vec![2]);
    let mut log = LogState::new(1, 1);
    log.record(numbered(1));
    log.record(numbered(2));
    assert_eq!(latencies(&log.recent(5)), vec![2]);
}

fn report(metrics: &Metrics) -> String {
    json_string(&metrics.snapshot()).unwrap()
}

#[test]
fn counters_start_at_zero() {
    let metrics = Metrics::new();
    assert_eq!(
        report(&metrics),
        "{\"requests_total\":0,\"cache_hits\":0,\"cache_misses\":0,\"unique_request_hashes\":0}"
    );
}

#[test]
fn counters_count() {
    let mut metrics = Metrics::new();
    for hash in ["a", "b", "a", "c", "b", "a"] {
        metrics.record_request(hash.to_string());
    }
    for _ in 0..12 {
        metrics.record_cache_hit();
    }
    metrics.record_cache_miss();
    assert_eq!(
        report(&metrics),
        "{\"requests_total\":6,\"cache_hits\":12,\"cache_misses\":1,\"unique_request_hashes\":3}"
    );
    assert_eq!(
        metrics.snapshot(),
        Json::Object(vec![
            ("requests_total".to_string(), Json::Number("6".to_string())),
            ("cache_hits".to_string(), Json::Number("12".to_string())),
            ("cache_misses".to_string(), Json::Number("1".to_string())),
            ("unique_request_hashes".to_string(), Json::Number("3".to_string())),
        ])
    );
}

#[test]
fn numbers_in_decimal() {
    assert_eq!(decimal_text(0), "0");
    assert_eq!(decimal_text(7), "7");
    assert_eq!(decimal_text(10), "10");
    assert_eq!(decimal_text(1_000_000), "1000000");
    assert_eq!(decimal_text(9_876_543_210), "9876543210");
    assert_eq!(decimal_text(u64::MAX), "18446744073709551615");
}

#[test]
fn strings_compared_by_bytes() {
    assert!(str_eq("", ""));
    assert!(str_eq("getSlot", "getSlot"));
    assert!(!str_eq("getSlot", "getslot"));
    assert!(!str_eq("a", "ab"));
    assert!(!str_eq("é", "e"));
    assert!(key_less("", "a"));
    assert!(key_less("a", "b"));
    assert!(key_less("a", "ab"));
    assert!(key_less("Z", "a"));
    assert!(key_less("z", "é"));
    assert!(key_less("10", "9"));
    assert!(!key_less("a", "a"));
    assert!(!key_less("b", "a"));
    assert!(!key_less("ab", "a"));
    assert!(!key_less("", ""));
    for (a, b) in [("a", "b"), ("x", "xy"), ("é", "z"), ("", ""), ("日本", "日本語")] {
        assert_eq!(key_less(a, b), a.as_bytes() < b.as_bytes());
        assert_eq!(key_less(b, a), b.as_bytes() < a.as_bytes());
    }
}

fn some(text: &str) -> Option<String> {
    Some(text.to_string())
}

#[test]
fn settings_default_where_nothing_is_given() {
    let config = Config::from_values("http://upstream".to_string(), None, None, None, None, None, None);
    assert_eq!(config.quicknode_url, "http://upstream");
    assert_eq!(config.quicknode_ws_url, None);
    assert_eq!(config.privacy_mode, PrivacyMode::Balanced);
    assert_eq!(config.cache_ttl, 5);
    assert_eq!(config.request_timeout, 8_000);
    assert_eq!(config.retry_attempts, 3);
    assert_eq!(config.bind_addr, "0.0.0.0:8080");
    assert_eq!(config.cache_ttl_ms(), 5_000);
    assert_eq!(DEFAULT_CACHE_TTL_SECONDS, 5);
    assert_eq!(DEFAULT_REQUEST_TIMEOUT_MS, 8_000);
    assert_eq!(DEFAULT_RETRY_ATTEMPTS, 3);
}

#[test]
fn settings_are_read_from_their_texts() {
    let config = Config::from_values(
        "http://upstream".to_string(),
        some("STRICT"),
        some("ws://upstream"),
        some("60"),
        some("250"),
        some("7"),
        some("127.0.0.1:9000"),
    );
    assert_eq!(config.quicknode_ws_url, some("ws://upstream"));
    assert_eq!(config.privacy_mode, PrivacyMode::Strict);
    assert_eq!(config.cache_ttl, 60);
    assert_eq!(config.request_timeout, 250);
    assert_eq!(config.retry_attempts, 7);
    assert_eq!(config.bind_addr, "127.0.0.1:9000");
    assert_eq!(config.cache_ttl_ms(), 60_000);
}

#[test]
fn settings_default_where_the_text_cannot_be_read() {
    let config = Config::from_values(
        String::new(),
        some("paranoid"),
        None,
        some("five"),
        some("-1"),
        some("18446744073709551616"),
        some(""),
    );
    assert_eq!(config.privacy_mode, PrivacyMode::Balanced);
    assert_eq!(config.cache_ttl, 5);
    assert_eq!(config.request_timeout, 8_000);
    assert_eq!(config.retry_attempts, 3);
    assert_eq!(config.bind_addr, "");
    let config = Config::from_values(String::new(), some("dev"), None, some(" 9"), some("9 "), some(""), None);
    assert_eq!(config.privacy_mode, PrivacyMode::Dev);
    assert_eq!(config.cache_ttl, 5);
    assert_eq!(config.request_timeout, 8_000);
    assert_eq!(config.retry_attempts, 3);
}

#[test]
fn the_time_to_live_in_milliseconds_saturates() {
    let config = Config::from_values(
        String::new(),
        None,
        None,
        some("18446744073709551615"),
        some("0"),
        some("0"),
        None,
    );
    assert_eq!(config.cache_ttl, u64::MAX);
    assert_eq!(config.cache_ttl_ms(), u64::MAX);
    assert_eq!(config.request_timeout, 0);
    assert_eq!(config.retry_attempts, 0);
}

#[test]
fn settings_from_what_was_read() {
    let config = Config::from_parsed(
        "http://upstream".to_string(),
        Some(PrivacyMode::Dev),
        some("ws://upstream"),
        Some(0),
        Some(1),
        Some(2),
        some("[::1]:80"),
    );
    assert_eq!(config.quicknode_url, "http://upstream");
    assert_eq!(config.quicknode_ws_url, some("ws://upstream"));
    assert_eq!(config.privacy_mode, PrivacyMode::Dev);
    assert_eq!(config.cache_ttl, 0);
    assert_eq!(config.request_timeout, 1);
    assert_eq!(config.retry_attempts, 2);
    assert_eq!(config.bind_addr, "[::1]:80");

    let config = Config::from_parsed(String::new(), None, None, None, None, None, None);
    assert_eq!(config.privacy_mode, PrivacyMode::Balanced);
    assert_eq!(config.cache_ttl, 5);
    assert_eq!(config.request_timeout, 8_000);
    assert_eq!(config.retry_attempts, 3);
    assert_eq!(config.bind_addr, "0.0.0.0:8080");
    assert_eq!(config.quicknode_ws_url, None);
}
