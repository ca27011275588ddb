//! Calls into the standard library and `serde_json` whose results Verus cannot compute itself.
//! Each function here is trusted: its body is not verified, and its contract only names what
//! the called function returns.
use vstd::prelude::*;

verus! {

/// What `str::to_lowercase` returns for a string (Unicode lower-case mapping).
pub uninterp spec fn lowercase_of(s: Seq<char>) -> Seq<char>;

/// Calls `str::to_lowercase`. The contract says that the result is the lower-case mapping
/// named `lowercase_of`, a function of the input characters, and that the empty string maps to
/// the empty string (each character is mapped in turn); the Unicode tables are not stated.
#[verifier::external_body]
pub(crate) fn lowercase(s: &str) -> (r: String)
    ensures
        r@ == lowercase_of(s@),
        s@.len() == 0 ==> r@.len() == 0,
{
    s.to_lowercase()
}

/// What `String::from_utf8_lossy` makes of a byte string.
pub uninterp spec fn lossy_text(bytes: Seq<u8>) -> Seq<char>;

/// Calls `String::from_utf8_lossy`. The contract names the result `lossy_text(bytes)` and states
/// what its documentation promises for valid UTF-8: the bytes are decoded unchanged. How invalid
/// sequences are replaced is left unsaid.
#[verifier::external_body]
pub(crate) fn utf8_lossy(bytes: &[u8]) -> (r: String)
    ensures
        r@ == lossy_text(bytes@),
        vstd::utf8::valid_utf8(bytes@) ==> r@ == vstd::utf8::decode_utf8(bytes@),
{
    String::from_utf8_lossy(bytes).into_owned()
}

/// What `{:?}` prints for a path (`<Path as Debug>`, which prints the `OsStr` of the path): the
/// text in double quotes, each character escaped as `char::escape_debug` escapes it.
pub uninterp spec fn path_debug_text(path: Seq<char>) -> Seq<char>;

/// Formats `std::path::Path::new(path)` with `{:?}`. The contract only names the result as a
/// function of the path's characters; the escaping rules are not stated.
#[verifier::external_body]
pub(crate) fn path_debug(path: &str) -> (r: String)
    ensures
        r@ == path_debug_text(path@),
{
    format!("{:?}", std::path::Path::new(path))
}

/// What `serde_json` reads as the unsigned integer under `key` in the JSON object `text`.
pub uninterp spec fn json_u64_at(text: Seq<char>, key: Seq<char>) -> Option<u64>;

/// Parses `text` with `serde_json::from_str::<Value>`, looks `key` up with `Value::get` and reads
/// it with `Value::as_u64`. `None` when any of the three fails. The contract only names the
/// result as a function of the text and the key.
#[verifier::external_body]
pub(crate) fn json_u64_field(text: &str, key: &str) -> (r: Option<u64>)
    ensures
        r == json_u64_at(text@, key@),
{
    serde_json::from_str::<serde_json::Value>(text).ok().and_then(|v| v.get(key).and_then(|p| p.as_u64()))
}

/// What `serde_json` reads as the string under `key` in the JSON object `text`.
pub uninterp spec fn json_str_at(text: Seq<char>, key: Seq<char>) -> Option<Seq<char>>;

/// Parses `text` with `serde_json::from_str::<Value>`, looks `key` up with `Value::get` and reads
/// it with `Value::as_str`. `None` when any of the three fails. The contract only names the
/// result as a function of the text and the key.
#[verifier::external_body]
pub(crate) fn json_str_field(text: &str, key: &str) -> (r: Option<String>)
    ensures
        match r {
            Some(v) => json_str_at(text@, key@) == Some(v@),
            None => json_str_at(text@, key@) is None,
        },
{
    serde_json::from_str::<serde_json::Value>(text).ok().and_then(|v| v.get(key).and_then(|p| p.as_str().map(|s| s.to_string())))
}

/// The text `serde_json::to_string_pretty` writes for the JSON object whose `"pid"` is `pid`
/// and whose `"command"` is `command`.
pub uninterp spec fn meta_json_text(pid: u32, command: Seq<char>) -> Seq<char>;

/// Builds the JSON object `{"pid": pid, "command": command}` as a `serde_json::Value` and
/// writes it with `serde_json::to_string_pretty` (empty if writing fails). The contract only
/// names the result as a function of the two values; the JSON layout is not stated.
#[verifier::external_body]
pub(crate) fn meta_json(pid: u32, command: &str) -> (r: String)
    ensures
        r@ == meta_json_text(pid, command@),
{
    let mut m = serde_json::Map::new();
    m.insert("pid".to_string(), serde_json::Value::from(pid));
    m.insert("command".to_string(), serde_json::Value::from(command));
    serde_json::to_string_pretty(&serde_json::Value::Object(m)).unwrap_or_default()
}

/// Reads the clock: the seconds since the Unix epoch from `SystemTime::now`, or 0 when the clock
/// is before the epoch. Nothing is promised of the value.
#[verifier::external_body]
pub(crate) fn now_secs() -> u64 {
    std::time::SystemTime::now().duration_since(std::time::UNIX_EPOCH).map(|d| d.as_secs()).unwrap_or(0)
}

} // verus!
