//! The stored preferences: the text of the configuration file, and what a
//! loaded configuration file says about dark mode.

use vstd::prelude::*;

verus! {

/// The boolean member named `key` of the JSON object that `text` holds:
/// `None` when `text` is no JSON value, is not an object, has no such
/// member, or the member is not `true` or `false`.
pub uninterp spec fn json_bool_member(text: Seq<char>, key: Seq<char>) -> Option<bool>;

/// `key` is written into a JSON string as it stands: no control character,
/// quote or backslash in it.
pub open spec fn json_plain_key(key: Seq<char>) -> bool {
    forall|i: int| 0 <= i < key.len() ==> {
        let c = #[trigger] key[i];
        &&& (c as u32) >= 0x20
        &&& c != '"'
        &&& c != '\\'
    }
}

/// A JSON object with the single boolean member `key`, pretty-printed with
/// an indent of two spaces.
pub open spec fn pretty_member_text(key: Seq<char>, value: bool) -> Seq<char> {
    "{\n  \""@ + key + "\": "@ + (if value { "true"@ } else { "false"@ }) + "\n}"@
}

/// Parses `text` with `serde_json::from_str` into a `serde_json::Value`, then
/// takes the member `key` with `Value::get` and reads it with
/// `Value::as_bool`. The contract names the result `json_bool_member` of the
/// two texts and claims nothing more of it.
#[verifier::external_body]
fn read_json_bool_member(text: &str, key: &str) -> (r: Option<bool>)
    ensures
        r == json_bool_member(text@, key@),
{
    match serde_json::from_str::<serde_json::Value>(text) {
        Ok(value) => match value.get(key) {
            Some(member) => member.as_bool(),
            None => None,
        },
        Err(_) => None,
    }
}

/// Builds the object `{ key: value }` as a `serde_json::Value` and prints it
/// with `serde_json::to_string_pretty`. The contract claims the exact text
/// that serde_json's pretty formatter writes for such an object (an opening
/// brace, a new line, two spaces, the quoted key, `": "`, the value, a new
/// line and a closing brace), and that parsing that text back gives `value`
/// as the member `key`.
#[verifier::external_body]
fn pretty_json_bool_member(key: &str, value: bool) -> (s: String)
    requires
        json_plain_key(key@),
    ensures
        s@ == pretty_member_text(key@, value),
        json_bool_member(s@, key@) == Some(value),
{
    let mut members = serde_json::Map::new();
    members.insert(key.to_string(), serde_json::Value::Bool(value));
    serde_json::to_string_pretty(&serde_json::Value::Object(members)).unwrap_or_default()
}

/// The member under which the dark-mode preference is stored.
pub open spec fn dark_mode_key() -> Seq<char> {
    "dark_mode"@
}

/// The text of the configuration file for this dark-mode preference.
pub open spec fn config_text(dark_mode: bool) -> Seq<char> {
    pretty_member_text(dark_mode_key(), dark_mode)
}

/// The preference after loading: the stored one where there is one, else
/// the current one.
pub open spec fn loaded_dark_mode(found: Option<bool>, current: bool) -> bool {
    match found {
        Some(d) => d,
        None => current,
    }
}

/// The text to store for the dark-mode preference; reading it back gives the
/// preference, whatever the current one is.
pub fn theme_config_text(dark_mode: bool) -> (s: String)
    ensures
        s@ == config_text(dark_mode),
        forall|current: bool|
            loaded_dark_mode(json_bool_member(s@, dark_mode_key()), current) == dark_mode,
{
    proof {
        reveal_strlit("dark_mode");
    }
    pretty_json_bool_member("dark_mode", dark_mode)
}

/// The preference after reading `found` from the configuration file.
pub fn dark_mode_after_load(found: Option<bool>, current: bool) -> (r: bool)
    ensures
        r == loaded_dark_mode(found, current),
{
    match found {
        Some(d) => d,
        None => current,
    }
}

/// The dark-mode preference after loading the configuration file whose
/// text is `text`: its boolean member `dark_mode` where it has one, else
/// `current`.
pub fn dark_mode_from_config(text: &str, current: bool) -> (r: bool)
    ensures
        r == loaded_dark_mode(json_bool_member(text@, dark_mode_key()), current),
{
    proof {
        reveal_strlit("dark_mode");
    }
    let found = read_json_bool_member(text, "dark_mode");
    dark_mode_after_load(found, current)
}

} // verus!
