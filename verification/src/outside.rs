//! The calls that leave this crate.
//!
//! Verus does not read the functions called here, so it takes every contract
//! in this file on trust. Each doc comment names the function that is called
//! and says what is claimed of it.

use vstd::prelude::*;
use vstd::utf8::{decode_utf8, valid_utf8};

verus! {

/// `regex::Error`, handed through unread.
#[verifier::external_type_specification]
#[verifier::external_body]
pub struct ExPatternError(regex::Error);

/// `base64::DecodeError`, handed through unread.
#[verifier::external_type_specification]
#[verifier::external_body]
pub struct ExBase64Error(base64::DecodeError);

/// `serde_json::Error`, handed through unread.
#[verifier::external_type_specification]
#[verifier::external_body]
pub struct ExJsonError(serde_json::Error);

/// The text that `String::from_utf8_lossy` makes of `bytes`.
pub uninterp spec fn lossy_text(bytes: Seq<u8>) -> Seq<char>;

/// Calls `String::from_utf8_lossy` and takes ownership of the result.
///
/// Claimed: the result depends on the bytes alone, and well-formed UTF-8
/// comes out as the text it encodes. What becomes of ill-formed bytes is
/// left to `lossy_text`.
#[verifier::external_body]
pub(crate) fn text_from_bytes(bytes: &[u8]) -> (text: String)
    ensures
        text@ == lossy_text(bytes@),
        valid_utf8(bytes@) ==> text@ == decode_utf8(bytes@),
{
    String::from_utf8_lossy(bytes).into_owned()
}

/// Calls `std::path::Path::parent` on `path`.
///
/// Claimed: a parent, where there is one, is the path with its final
/// component taken off, so its text is a leading part of `path`. Which part
/// depends on the platform's path syntax and is not stated.
#[verifier::external_body]
pub(crate) fn parent_of(path: &str) -> (parent: Option<String>)
    ensures
        parent matches Some(p) ==> p@.is_prefix_of(path@),
{
    std::path::Path::new(path).parent().and_then(|p| p.to_str()).map(|p| p.to_string())
}

/// Whether `regex::Regex::new` accepts `pattern`.
pub uninterp spec fn pattern_compiles(pattern: Seq<char>) -> bool;

/// The text of the leftmost match that `regex::Regex::find` reports for
/// `pattern` in `text`, if there is a match.
pub uninterp spec fn leftmost_match(pattern: Seq<char>, text: Seq<char>) -> Option<Seq<char>>;

/// Compiles `pattern` with `regex::Regex::new` and searches `text` with
/// `regex::Regex::find`, handing back the matched text.
///
/// Claimed: whether the pattern compiles depends on the pattern alone, and
/// the match on the pattern and the text alone.
#[verifier::external_body]
pub(crate) fn find_pattern(pattern: &str, text: &str) -> (found: Result<Option<String>, regex::Error>)
    ensures
        found is Ok <==> pattern_compiles(pattern@),
        found matches Ok(m) ==> m.deep_view() == leftmost_match(pattern@, text@),
{
    let compiled = regex::Regex::new(pattern)?;
    Ok(compiled.find(text).map(|m| m.as_str().to_string()))
}

/// The bytes that the standard base64 engine of the `base64` crate decodes
/// `text` to, if it accepts `text`.
pub uninterp spec fn base64_decoded(text: Seq<char>) -> Option<Seq<u8>>;

/// Calls `base64::Engine::decode` on `base64::engine::general_purpose::STANDARD`.
///
/// Claimed: the outcome depends on the text alone.
#[verifier::external_body]
pub(crate) fn decode_base64(text: &str) -> (bytes: Result<Vec<u8>, base64::DecodeError>)
    ensures
        match bytes {
            Ok(b) => base64_decoded(text@) == Some(b@),
            Err(_) => base64_decoded(text@) is None,
        },
{
    base64::Engine::decode(&base64::engine::general_purpose::STANDARD, text)
}

/// The entries that `serde_json::from_slice` reads from `json` as a map from
/// unsigned 32-bit keys to strings, in the order in which a `BTreeMap` hands
/// them out, if `json` is such a map.
pub uninterp spec fn bundle_entries(json: Seq<u8>) -> Option<Seq<(u32, Seq<char>)>>;

/// Calls `serde_json::from_slice` for a `BTreeMap<u32, String>` and walks the
/// map.
///
/// Claimed: the outcome depends on the bytes alone.
#[verifier::external_body]
pub(crate) fn parse_bundle(json: &[u8]) -> (entries: Result<Vec<(u32, String)>, serde_json::Error>)
    ensures
        match entries {
            Ok(list) => bundle_entries(json@) == Some(list.deep_view()),
            Err(_) => bundle_entries(json@) is None,
        },
{
    let map: std::collections::BTreeMap<u32, String> = serde_json::from_slice(json)?;
    Ok(map.into_iter().collect())
}

/// The integer under the key `retcode` of the JSON object `body`, as
/// `serde_json` reads it; `None` where `body` is no JSON text, no object,
/// has no such key, or holds something else than an integer that fits `i64`
/// there.
pub uninterp spec fn response_code(body: Seq<u8>) -> Option<i64>;

/// Calls `serde_json::from_slice` for a `serde_json::Value`, indexes it with
/// `"retcode"` and calls `Value::as_i64`.
///
/// Claimed: the outcome depends on the bytes alone.
#[verifier::external_body]
pub(crate) fn read_response_code(body: &[u8]) -> (code: Option<i64>)
    ensures
        code == response_code(body@),
{
    let value: serde_json::Value = serde_json::from_slice(body).ok()?;
    value["retcode"].as_i64()
}

} // verus!
