use rpc_privacy_proxy::cache_key::json_string;
use rpc_privacy_proxy::json::Json;
use rpc_privacy_proxy::normalize::{normalize_for_mode, normalize_rpc_request};
use rpc_privacy_proxy::privacy_mode::PrivacyMode;

fn text(value: &str) -> Json {
    Json::String(value.to_string())
}

fn number(value: &str) -> Json {
    Json::Number(value.to_string())
}

fn object(members: Vec<(&str, Json)>) -> Json {
    Json::Object(members.into_iter().map(|(k, v)| (k.to_string(), v)).collect())
}

fn keys(value: &Json) -> Vec<String> {
    match value {
        Json::Object(members) => members.iter().map(|m| m.0.clone()).collect(),
        _ => panic!("not an object"),
    }
}

#[test]
fn test_normalize_rpc_request_sorts_keys() {
    let input = object(vec![
        ("params", Json::Array(vec![])),
        ("method", text("getSlot")),
        ("jsonrpc", text("2.0")),
        ("id", number("1")),
    ]);

    let normalized = normalize_rpc_request(input);

    assert_eq!(keys(&normalized), vec!["id", "jsonrpc", "method", "params"]);
}

#[test]
fn test_normalize_for_mode_strict_removes_id() {
    let input = object(vec![
        ("jsonrpc", text("2.0")),
        ("id", number("12345")),
        ("method", text("getSlot")),
        ("params", Json::Array(vec![])),
    ]);

    let normalized = normalize_for_mode(PrivacyMode::Strict, input);

    assert!(normalized.get("id").is_none());
    assert_eq!(normalized.get("method").unwrap(), &text("getSlot"));
}

#[test]
fn test_normalize_for_mode_balanced_removes_id() {
    let input = object(vec![
        ("jsonrpc", text("2.0")),
        ("id", number("67890")),
        ("method", text("getBalance")),
        ("params", Json::Array(vec![text("address123")])),
    ]);

    let normalized = normalize_for_mode(PrivacyMode::Balanced, input);

    assert!(normalized.get("id").is_none());
    assert_eq!(normalized.get("method").unwrap(), &text("getBalance"));
}

#[test]
fn test_normalize_for_mode_dev_keeps_id() {
    let input = object(vec![
        ("jsonrpc", text("2.0")),
        ("id", number("99999")),
        ("method", text("getSlot")),
        ("params", Json::Array(vec![])),
    ]);

    let normalized = normalize_for_mode(PrivacyMode::Dev, input);

    assert_eq!(normalized.get("id").unwrap(), &number("99999"));
}

#[test]
fn test_normalize_nested_objects() {
    let input = object(vec![
        ("method", text("getAccountInfo")),
        (
            "params",
            Json::Array(vec![object(vec![
                ("encoding", text("jsonParsed")),
                ("commitment", text("finalized")),
            ])]),
        ),
    ]);

    let normalized = normalize_rpc_request(input);
    let params = match normalized.get("params").unwrap() {
        Json::Array(items) => items,
        _ => panic!("params is no array"),
    };

    assert_eq!(keys(&params[0]), vec!["commitment", "encoding"]);
}

#[test]
fn test_same_semantic_requests_produce_same_hash() {
    let request1 = object(vec![
        ("id", number("1")),
        ("jsonrpc", text("2.0")),
        ("method", text("getSlot")),
        ("params", Json::Array(vec![])),
    ]);

    let request2 = object(vec![
        ("params", Json::Array(vec![])),
        ("method", text("getSlot")),
        ("id", number("999")),
        ("jsonrpc", text("2.0")),
    ]);

    let normalized1 = normalize_for_mode(PrivacyMode::Strict, request1);
    let normalized2 = normalize_for_mode(PrivacyMode::Strict, request2);

    assert_eq!(json_string(&normalized1).unwrap(), json_string(&normalized2).unwrap());
}

#[test]
fn canonical_form_is_exact() {
    let input = object(vec![
        ("b", Json::Array(vec![number("2"), number("1"), object(vec![("z", Json::Null), ("y", Json::Bool(true))])])),
        ("a", object(vec![("d", number("1.50")), ("c", text("x"))])),
    ]);
    let expected = object(vec![
        ("a", object(vec![("c", text("x")), ("d", number("1.50"))])),
        ("b", Json::Array(vec![number("2"), number("1"), object(vec![("y", Json::Bool(true)), ("z", Json::Null)])])),
    ]);
    assert_eq!(normalize_rpc_request(input), expected);
}

#[test]
fn canonical_form_is_idempotent() {
    let input = object(vec![
        ("params", Json::Array(vec![object(vec![("b", number("1")), ("a", number("2"))])])),
        ("method", text("getBlock")),
        ("id", number("7")),
    ]);
    let once = normalize_rpc_request(input);
    let twice = normalize_rpc_request(once.clone());
    assert_eq!(once, twice);
}

#[test]
fn canonical_form_ignores_key_order() {
    let a = object(vec![("x", number("1")), ("y", number("2")), ("z", number("3"))]);
    let b = object(vec![("z", number("3")), ("x", number("1")), ("y", number("2"))]);
    let c = object(vec![("y", number("2")), ("z", number("3")), ("x", number("1"))]);
    let na = normalize_rpc_request(a);
    assert_eq!(na, normalize_rpc_request(b));
    assert_eq!(na, normalize_rpc_request(c));
    assert_eq!(json_string(&na).unwrap(), "{\"x\":1,\"y\":2,\"z\":3}");
}

#[test]
fn keys_are_ordered_by_their_bytes() {
    let input = object(vec![
        ("b", Json::Null),
        ("a", Json::Null),
        ("ab", Json::Null),
        ("B", Json::Null),
        ("", Json::Null),
        ("é", Json::Null),
        ("z", Json::Null),
        ("10", Json::Null),
        ("9", Json::Null),
    ]);
    assert_eq!(keys(&normalize_rpc_request(input)), vec!["", "10", "9", "B", "a", "ab", "b", "z", "é"]);
}

#[test]
fn arrays_and_scalars_are_untouched() {
    let array = Json::Array(vec![number("3"), number("1"), text("b"), text("a"), Json::Null, Json::Bool(false)]);
    assert_eq!(normalize_rpc_request(array.clone()), array);
    assert_eq!(normalize_rpc_request(text("zeta")), text("zeta"));
    assert_eq!(normalize_rpc_request(number("1e3")), number("1e3"));
    assert_eq!(normalize_rpc_request(Json::Null), Json::Null);
    assert_eq!(normalize_rpc_request(Json::Bool(true)), Json::Bool(true));
}

#[test]
fn members_with_one_key_keep_their_order() {
    let input = object(vec![("k", number("1")), ("a", Json::Null), ("k", number("2"))]);
    let expected = object(vec![("a", Json::Null), ("k", number("1")), ("k", number("2"))]);
    assert_eq!(normalize_rpc_request(input), expected);
}

#[test]
fn stripping_sets_jsonrpc_and_removes_id() {
    let input = object(vec![
        ("method", text("getSlot")),
        ("jsonrpc", text("1.0")),
        ("id", text("abc")),
    ]);
    let expected = object(vec![("jsonrpc", text("2.0")), ("method", text("getSlot"))]);
    assert_eq!(normalize_for_mode(PrivacyMode::Strict, input.clone()), expected);
    assert_eq!(normalize_for_mode(PrivacyMode::Balanced, input.clone()), expected);
    let kept = object(vec![
        ("id", text("abc")),
        ("jsonrpc", text("1.0")),
        ("method", text("getSlot")),
    ]);
    assert_eq!(normalize_for_mode(PrivacyMode::Dev, input), kept);
}

#[test]
fn stripping_adds_no_jsonrpc() {
    let input = object(vec![("method", text("getSlot")), ("id", number("4"))]);
    let expected = object(vec![("method", text("getSlot"))]);
    assert_eq!(normalize_for_mode(PrivacyMode::Strict, input), expected);
}

#[test]
fn stripping_is_for_the_top_level_only() {
    let inner = object(vec![("jsonrpc", text("1.0")), ("id", number("5"))]);
    let input = object(vec![("params", inner), ("id", number("6"))]);
    let expected = object(vec![(
        "params",
        object(vec![("id", number("5")), ("jsonrpc", text("1.0"))]),
    )]);
    assert_eq!(normalize_for_mode(PrivacyMode::Strict, input), expected);

    let array = Json::Array(vec![object(vec![("id", number("1"))])]);
    assert_eq!(normalize_for_mode(PrivacyMode::Strict, array.clone()), array);
}

#[test]
fn lookup_by_key_and_string_reading() {
    let value = object(vec![("a", number("1")), ("b", text("two")), ("a", number("3"))]);
    assert_eq!(value.get("a"), Some(&number("1")));
    assert_eq!(value.get("b").unwrap().as_str(), Some("two"));
    assert_eq!(value.get("a").unwrap().as_str(), None);
    assert_eq!(value.get("c"), None);
    assert_eq!(text("x").get("a"), None);
    assert_eq!(value.clone(), value);
}
