use rpc_privacy_proxy::cache_key::{
    hash_text, hash_value, json_string, key_of_digest, request_hash,
};
use rpc_privacy_proxy::json::Json;
use rpc_privacy_proxy::privacy_mode::PrivacyMode;

fn k_text(value: &str) -> Json {
    Json::String(value.to_string())
}

fn k_number(value: &str) -> Json {
    Json::Number(value.to_string())
}

fn k_object(members: Vec<(&str, Json)>) -> Json {
    Json::Object(members.into_iter().map(|(k, v)| (k.to_string(), v)).collect())
}

fn first_request() -> Json {
    k_object(vec![
        ("id", k_number("1")),
        ("jsonrpc", k_text("2.0")),
        ("method", k_text("getSlot")),
        ("params", Json::Array(vec![])),
    ])
}

fn second_request() -> Json {
    k_object(vec![
        ("params", Json::Array(vec![])),
        ("method", k_text("getSlot")),
        ("id", k_number("999")),
        ("jsonrpc", k_text("2.0")),
    ])
}

#[test]
fn digest_of_known_texts() {
    assert_eq!(hash_text(""), "e3b0c44298fc1c149afbf4c8996fb92427ae41e4649b934ca495991b7852b855");
    assert_eq!(hash_text("abc"), "ba7816bf8f01cfea414140de5dae2223b00361a396177a9cb410ff61f20015ad");
}

#[test]
fn keys_are_64_lower_case_hex_digits() {
    for text in ["", "a", "getSlot", "{\"x\":1}"] {
        let key = hash_text(text);
        assert_eq!(key.len(), 64);
        assert!(key.chars().all(|c| c.is_ascii_digit() || ('a'..='f').contains(&c)));
    }
}

#[test]
fn compact_json_text() {
    let value = k_object(vec![
        ("a", k_number("1.5")),
        ("b", Json::Array(vec![Json::Bool(true), Json::Null, k_text("x\"y")])),
        ("c", k_object(vec![("d", k_number("-7"))])),
    ]);
    assert_eq!(
        json_string(&value).unwrap(),
        "{\"a\":1.5,\"b\":[true,null,\"x\\\"y\"],\"c\":{\"d\":-7}}"
    );
    assert_eq!(
        hash_value(&value).unwrap(),
        "ff37074f69254a0f05e006910292ff6e00e83bd50958b1fdf91c667501998a80"
    );
    assert_eq!(json_string(&Json::Null).unwrap(), "null");
    assert_eq!(json_string(&k_text("")).unwrap(), "\"\"");
    assert_eq!(json_string(&Json::Array(vec![])).unwrap(), "[]");
    assert_eq!(json_string(&k_object(vec![])).unwrap(), "{}");
    assert_eq!(json_string(&k_number("18446744073709551615")).unwrap(), "18446744073709551615");
    assert_eq!(json_string(&k_number("-9223372036854775808")).unwrap(), "-9223372036854775808");
}

#[test]
fn members_are_written_in_their_order() {
    let value = k_object(vec![("b", k_number("1")), ("a", k_number("2"))]);
    assert_eq!(json_string(&value).unwrap(), "{\"b\":1,\"a\":2}");
}

#[test]
fn a_number_that_is_none_cannot_be_serialized() {
    for bad in ["", "abc", "1 ", "--1", "0x10", "NaN", "1.", "+1"] {
        assert!(json_string(&k_number(bad)).is_err(), "{:?}", bad);
        assert!(hash_value(&Json::Array(vec![k_number(bad)])).is_err(), "{:?}", bad);
        let request = k_object(vec![("method", k_text("getSlot")), ("params", k_number(bad))]);
        assert!(request_hash(PrivacyMode::Strict, &request).is_err(), "{:?}", bad);
    }
}

#[test]
fn same_key_whatever_the_id_and_the_order() {
    for mode in [PrivacyMode::Strict, PrivacyMode::Balanced] {
        let first = request_hash(mode, &first_request()).unwrap();
        let second = request_hash(mode, &second_request()).unwrap();
        assert_eq!(first, second);
        assert_eq!(first, "1e049ca32547f71e2bbf76bbb95c1d804f11dbd1c63c86824c554e987ce2f8e2");
    }
}

#[test]
fn at_dev_the_id_is_part_of_the_key() {
    let first = request_hash(PrivacyMode::Dev, &first_request()).unwrap();
    let second = request_hash(PrivacyMode::Dev, &second_request()).unwrap();
    assert_ne!(first, second);
    assert_eq!(first, "22bc59d83a97f9bf11bab400398104ce2b4152a4fd99224c29752c15b087f51e");
    assert_eq!(second, "d11540b8176944a500811f1ec4159bc5e2de1d5e249efb81e380064e388453e5");
    assert_eq!(first, request_hash(PrivacyMode::Dev, &first_request()).unwrap());
}

#[test]
fn different_requests_have_different_keys() {
    let slot = k_object(vec![("method", k_text("getSlot"))]);
    let block = k_object(vec![("method", k_text("getBlock"))]);
    assert_ne!(
        request_hash(PrivacyMode::Strict, &slot).unwrap(),
        request_hash(PrivacyMode::Strict, &block).unwrap()
    );
}

#[test]
fn digests_in_hexadecimal() {
    assert_eq!(key_of_digest(&vec![]), "");
    assert_eq!(key_of_digest(&vec![0x00]), "00");
    assert_eq!(key_of_digest(&vec![0x0f, 0xf0]), "0ff0");
    assert_eq!(key_of_digest(&vec![0x00, 0xab, 0xff, 0x10, 0x9a]), "00abff109a");
    assert_eq!(key_of_digest(&vec![1, 2, 3, 15, 16]), "0102030f10");
    let all: Vec<u8> = (0..=255).collect();
    let key = key_of_digest(&all);
    assert_eq!(key.len(), 512);
    assert_eq!(&key[..20], "00010203040506070809");
    assert_eq!(&key[508..], "feff");
}
