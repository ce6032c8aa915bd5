//! Cache keys: the lower-case hex SHA-256 digest of a request's JSON text.

use crate::json::{Json, JsonView};
use crate::members::{keys_distinct, same_members};
use crate::normalize::{
    canonical, lemma_canonical_same_content, lemma_key_order_invariance, lemma_strip_members,
    lemma_strip_wf, normalize_for_mode, same_content, strip_identity, strip_member,
    strip_members, strips_identity,
};
use crate::privacy_mode::PrivacyMode;
use vstd::prelude::*;
use vstd::string::StringSliceAdditionalSpecFns;

verus! {

/// `serde_json::Error`, carried from the serializer to its message.
#[verifier::external_type_specification]
#[verifier::external_body]
pub struct ExJsonError(serde_json::Error);

/// `serde_json::Value`, the tree that the serializer is given.
#[verifier::external_type_specification]
#[verifier::external_body]
pub struct ExOutsideValue(serde_json::Value);

/// The compact JSON text that `serde_json` writes for a value, or `None`
/// where it reports an error (a number whose text is no JSON number).
pub uninterp spec fn json_text(value: JsonView) -> Option<Seq<char>>;

/// The SHA-256 digest of a byte string.
pub uninterp spec fn sha256(data: Seq<u8>) -> Seq<u8>;

/// The lower-case hexadecimal digit for a value below sixteen.
pub open spec fn hex_digit(nibble: int) -> char {
    if nibble < 10 {
        ('0' as int + nibble) as char
    } else {
        ('a' as int + nibble - 10) as char
    }
}

/// Two lower-case hexadecimal digits for each byte, high half first.
pub open spec fn hex_lower(bytes: Seq<u8>) -> Seq<char> {
    Seq::new(
        2 * bytes.len(),
        |i: int|
            if i % 2 == 0 {
                hex_digit(bytes[i / 2] as int / 16)
            } else {
                hex_digit(bytes[i / 2] as int % 16)
            },
    )
}

/// Builds the `serde_json::Value` with the same shape as `value`, member by
/// member and in the same order; a number is read from its text by
/// `serde_json::Number`'s `FromStr`, whose error is handed on. Nothing is
/// claimed of the result.
#[verifier::external_body]
fn outside_value(value: &Json) -> Result<serde_json::Value, serde_json::Error> {
    Ok(match value {
        Json::Null => serde_json::Value::Null,
        Json::Bool(b) => serde_json::Value::Bool(*b),
        Json::Number(n) => serde_json::Value::Number(n.parse()?),
        Json::String(s) => serde_json::Value::String(s.clone()),
        Json::Array(items) => serde_json::Value::Array(
            items.iter().map(outside_value).collect::<Result<_, _>>()?,
        ),
        Json::Object(entries) => serde_json::Value::Object(
            entries.iter().map(|e| outside_value(&e.1).map(|v| (e.0.clone(), v))).collect::<
                Result<_, _>,
            >()?,
        ),
    })
}

/// `serde_json::to_string` on the `serde_json::Value` that stands for
/// `value`. What comes back depends on the tree alone, which is all that
/// the contract claims: the text has the name `json_text`, and an error
/// means that there is none.
#[verifier::external_body]
fn serialize_json(value: &Json) -> (text: Result<String, serde_json::Error>)
    ensures
        match text {
            Ok(s) => json_text(value@) == Some(s@),
            Err(_) => json_text(value@) is None,
        },
{
    serde_json::to_string(&outside_value(value)?)
}

/// `Sha256::digest` of the `sha2` crate: the 32-byte SHA-256 digest of `data`.
#[verifier::external_body]
fn sha256_digest(data: &[u8]) -> (digest: Vec<u8>)
    ensures
        digest@ == sha256(data@),
        digest@.len() == 32,
{
    <sha2::Sha256 as sha2::Digest>::digest(data).to_vec()
}

/// `hex::encode`: two lower-case hexadecimal digits per byte.
#[verifier::external_body]
fn hex_encode(bytes: &Vec<u8>) -> (text: String)
    ensures
        text@ == hex_lower(bytes@),
{
    hex::encode(bytes)
}

/// `to_string` of a `serde_json::Error`: the message that the error
/// displays. Nothing is claimed of it.
#[verifier::external_body]
fn error_message(error: &serde_json::Error) -> String {
    error.to_string()
}

/// Writes a value as compact JSON text; fails, with the serializer's
/// message, exactly where the value has no JSON text.
pub fn json_string(value: &Json) -> (text: Result<String, String>)
    ensures
        match json_text(value@) {
            Some(expected) => text matches Ok(s) && s@ == expected,
            None => text is Err,
        },
{
    match serialize_json(value) {
        Ok(text) => Ok(text),
        Err(error) => Err(error_message(&error)),
    }
}

/// Whether a character is a lower-case hexadecimal digit.
pub open spec fn is_lower_hex(c: char) -> bool {
    ('0' <= c && c <= '9') || ('a' <= c && c <= 'f')
}

/// The hexadecimal text of a byte string holds two characters per byte,
/// each of them a lower-case hexadecimal digit.
pub proof fn lemma_hex_lower(bytes: Seq<u8>)
    ensures
        hex_lower(bytes).len() == 2 * bytes.len(),
        forall|i: int|
            0 <= i < hex_lower(bytes).len() ==> is_lower_hex(#[trigger] hex_lower(bytes)[i]),
{
    assert forall|i: int| 0 <= i < hex_lower(bytes).len() implies is_lower_hex(
        #[trigger] hex_lower(bytes)[i],
    ) by {
        let byte = bytes[i / 2] as int;
        assert(0 <= byte / 16 < 16 && 0 <= byte % 16 < 16);
    }
}

/// The cache key of a serialized request.
pub open spec fn digest_hex(text: Seq<char>) -> Seq<char> {
    hex_lower(sha256(vstd::utf8::encode_utf8(text)))
}

/// Writes a digest as a cache key: two lower-case hexadecimal digits per byte.
pub fn key_of_digest(digest: &Vec<u8>) -> (key: String)
    ensures
        key@ == hex_lower(digest@),
        key@.len() == 2 * digest@.len(),
        forall|i: int| 0 <= i < key@.len() ==> is_lower_hex(#[trigger] key@[i]),
{
    proof {
        lemma_hex_lower(digest@);
    }
    hex_encode(digest)
}

/// The cache key of a JSON text: 64 lower-case hexadecimal digits.
pub fn hash_text(text: &str) -> (key: String)
    ensures
        key@ == digest_hex(text@),
        key@.len() == 64,
        forall|i: int| 0 <= i < 64 ==> is_lower_hex(#[trigger] key@[i]),
{
    let digest = sha256_digest(text.as_bytes());
    key_of_digest(&digest)
}

/// Hashes the JSON text of `value`; fails exactly where the value cannot be
/// written as JSON text.
pub fn hash_value(value: &Json) -> (key: Result<String, String>)
    ensures
        match json_text(value@) {
            Some(text) => key matches Ok(k) && k@ == digest_hex(text) && k@.len() == 64,
            None => key is Err,
        },
{
    match json_string(value) {
        Ok(text) => Ok(hash_text(text.as_str())),
        Err(message) => Err(message),
    }
}

/// The cache key of a request at a privacy level: the digest of the JSON
/// text of its canonical, identity-stripped form; `None` where that form
/// cannot be written as JSON text.
pub open spec fn spec_cache_key(mode: PrivacyMode, request: JsonView) -> Option<Seq<char>> {
    match json_text(canonical(strip_identity(mode, request))) {
        Some(text) => Some(digest_hex(text)),
        None => None,
    }
}

/// Computes the cache key of a request: 64 lower-case hexadecimal digits,
/// or the serializer's message where the request cannot be serialized.
pub fn request_hash(mode: PrivacyMode, request: &Json) -> (key: Result<String, String>)
    ensures
        match spec_cache_key(mode, request@) {
            Some(expected) => key matches Ok(k) && k@ == expected && k@.len() == 64,
            None => key is Err,
        },
{
    let normalized = normalize_for_mode(mode, request.clone());
    hash_value(&normalized)
}

/// Hash determinism: at a level that strips the identity, two requests
/// hold the same cache key if, `id` aside, they hold the same members, in
/// whatever order and with whatever `id`.
pub proof fn lemma_cache_key_ignores_id_and_order(
    mode: PrivacyMode,
    x: Seq<(Seq<char>, JsonView)>,
    y: Seq<(Seq<char>, JsonView)>,
)
    requires
        strips_identity(mode),
        keys_distinct(x),
        keys_distinct(y),
        forall|m: (Seq<char>, JsonView)| m.0 != "id"@ ==> (x.contains(m) <==> y.contains(m)),
    ensures
        spec_cache_key(mode, JsonView::Object(x)) == spec_cache_key(mode, JsonView::Object(y)),
{
    let sx = strip_members(x);
    let sy = strip_members(y);
    lemma_strip_members(x);
    lemma_strip_members(y);
    assert forall|m: (Seq<char>, JsonView)| sx.contains(m) <==> sy.contains(m) by {
        if sx.contains(m) {
            let k = choose|k: int|
                0 <= k < x.len() && (#[trigger] x[k]).0 != "id"@ && m == strip_member(x[k]);
            assert(x.contains(x[k]));
            assert(y.contains(x[k]));
            let j = choose|j: int| 0 <= j < y.len() && y[j] == x[k];
            assert(y[j].0 != "id"@ && m == strip_member(y[j]));
        }
        if sy.contains(m) {
            let k = choose|k: int|
                0 <= k < y.len() && (#[trigger] y[k]).0 != "id"@ && m == strip_member(y[k]);
            assert(y.contains(y[k]));
            assert(x.contains(y[k]));
            let j = choose|j: int| 0 <= j < x.len() && x[j] == y[k];
            assert(x[j].0 != "id"@ && m == strip_member(x[j]));
        }
    }
    assert(same_members(sx, sy));
    lemma_key_order_invariance(sx, sy);
}

/// Key-order invariance of the serialized form: two objects that hold the
/// same members, in whatever order, have the same canonical JSON text.
pub proof fn lemma_text_ignores_key_order(
    x: Seq<(Seq<char>, JsonView)>,
    y: Seq<(Seq<char>, JsonView)>,
)
    requires
        keys_distinct(x),
        keys_distinct(y),
        same_members(x, y),
    ensures
        json_text(canonical(JsonView::Object(x))) == json_text(canonical(JsonView::Object(y))),
{
    lemma_key_order_invariance(x, y);
}

/// Hash determinism at every depth and every level: two requests without
/// repeated keys whose stripped forms are equal up to the order of members
/// hold the same cache key.
pub proof fn lemma_cache_key_same_content(mode: PrivacyMode, a: JsonView, b: JsonView)
    requires
        a.wf(),
        b.wf(),
        same_content(strip_identity(mode, a), strip_identity(mode, b)),
    ensures
        spec_cache_key(mode, a) == spec_cache_key(mode, b),
{
    lemma_strip_wf(mode, a);
    lemma_strip_wf(mode, b);
    lemma_canonical_same_content(strip_identity(mode, a), strip_identity(mode, b));
}

} // verus!
