//! The JSON texts that accompany a homeserver call.

use crate::process::DirectAuth;
use crate::text;
use ruma_client_api::r0::uiaa::AuthData;
use vstd::prelude::*;

verus! {

/// The JSON text in these bytes as `serde_json` reads it, where they hold exactly one JSON value.
pub uninterp spec fn raw_json_text(body: Seq<u8>) -> Option<Seq<char>>;

/// `serde_json::from_slice` into a `RawValue`, and the text of that value: a function of the
/// bytes, and `None` where they do not hold exactly one JSON value.
#[verifier::external_body]
pub(crate) fn raw_json(body: &Vec<u8>) -> (json: Option<String>)
    ensures
        text::optional_text(json) == raw_json_text(body@),
{
    let raw: Option<Box<serde_json::value::RawValue>> = serde_json::from_slice(body).ok();
    raw.map(|raw| raw.get().to_string())
}

/// A character as it stands inside a JSON string. Quotes, backslashes and control characters are
/// escaped, the latter by their short form where they have one.
pub open spec fn escaped_char(c: char) -> Seq<char> {
    if c == '"' || c == '\\' {
        seq!['\\', c]
    } else if c == '\u{8}' {
        seq!['\\', 'b']
    } else if c == '\t' {
        seq!['\\', 't']
    } else if c == '\n' {
        seq!['\\', 'n']
    } else if c == '\u{c}' {
        seq!['\\', 'f']
    } else if c == '\r' {
        seq!['\\', 'r']
    } else if c >= ' ' {
        seq![c]
    } else {
        let code = c as int;
        "\\u00"@.push("0123456789abcdef"@[code / 16]).push("0123456789abcdef"@[code % 16])
    }
}

/// A text as it stands inside a JSON string.
pub open spec fn escaped(s: Seq<char>) -> Seq<char>
    decreases s.len(),
{
    if s.len() == 0 {
        Seq::empty()
    } else {
        escaped(s.drop_last()) + escaped_char(s.last())
    }
}

/// A text as a JSON string.
pub open spec fn json_string(s: Seq<char>) -> Seq<char> {
    "\""@ + escaped(s) + "\""@
}

/// The compact JSON text of an object with two members: under `auth_key` the authentication data of
/// this kind, with neither session nor parameters, and under `device_key` the device id, or null.
pub open spec fn auth_object_text(
    auth_key: Seq<char>,
    auth_kind: Seq<char>,
    device_key: Seq<char>,
    device_id: Option<Seq<char>>,
) -> Seq<char> {
    let auth = "{\"type\":"@ + json_string(auth_kind) + "}"@;
    let device = match device_id {
        Some(device_id) => json_string(device_id),
        None => "null"@,
    };
    "{"@ + json_string(auth_key) + ":"@ + auth + ","@ + json_string(device_key) + ":"@ + device
        + "}"@
}

/// `serde_json::value::to_raw_value` on an object with two members: under `auth_key` ruma's
/// `AuthData::DirectRequest` with this kind and session and no parameters, and under `device_key`
/// the device id, or null. The text is compact and has the members in the order of their keys. It
/// is stated for authentication data without session and parameters, and for keys whose first
/// characters are in order.
#[verifier::external_body]
pub(crate) fn auth_object(
    auth_key: &str,
    auth: &DirectAuth,
    device_key: &str,
    device_id: &Option<String>,
) -> (json: Option<String>)
    requires
        auth.session is None,
        auth.parameters@.len() == 0,
        auth_key@.len() > 0,
        device_key@.len() > 0,
        auth_key@[0] < device_key@[0],
    ensures
        text::optional_text(json) == Some(
            auth_object_text(auth_key@, auth.kind@, device_key@, text::optional_text(*device_id)),
        ),
{
    let auth = AuthData::DirectRequest {
        kind: auth.kind.clone(),
        session: auth.session.clone(),
        auth_parameters: std::collections::BTreeMap::new(),
    };
    let mut object = serde_json::Map::new();
    object.insert(auth_key.to_string(), serde_json::to_value(auth).ok()?);
    object.insert(device_key.to_string(), serde_json::to_value(device_id).ok()?);
    let raw = serde_json::value::to_raw_value(&object).ok()?;
    Some(raw.get().to_string())
}

/// A text without quotes, backslashes and control characters stands in JSON as it is.
pub proof fn law_plain_text_is_not_escaped(s: Seq<char>)
    requires
        forall|i: int| 0 <= i < s.len() ==> #[trigger] s[i] >= ' ' && s[i] != '"' && s[i] != '\\',
    ensures
        escaped(s) == s,
    decreases s.len(),
{
    if s.len() > 0 {
        let front = s.drop_last();
        assert forall|i: int| 0 <= i < front.len() implies #[trigger] front[i] >= ' ' && front[i]
            != '"' && front[i] != '\\' by {
            assert(front[i] == s[i]);
        }
        law_plain_text_is_not_escaped(front);
        assert(s.last() == s[s.len() - 1]);
        assert(escaped(s) =~= s);
    }
}

/// Escaping a text escapes its parts: nothing is left out, added or moved.
pub proof fn law_escaped_in_parts(first: Seq<char>, second: Seq<char>)
    ensures
        escaped(first + second) == escaped(first) + escaped(second),
    decreases second.len(),
{
    if second.len() == 0 {
        assert(first + second =~= first);
        assert(escaped(first) + escaped(second) =~= escaped(first));
    } else {
        let shorter = second.drop_last();
        law_escaped_in_parts(first, shorter);
        assert((first + second).drop_last() =~= first + shorter);
        assert((first + second).last() == second.last());
        assert(escaped(first + second) =~= escaped(first) + escaped(second));
    }
}

/// The text of a single character inside a JSON string: the character itself from the space on,
/// but for the quote and the backslash, which get a backslash before them; a control character has
/// its short form, or six characters that begin with `\u00`.
pub proof fn law_escaped_character(c: char)
    ensures
        c >= ' ' && c != '"' && c != '\\' ==> escaped(seq![c]) == seq![c],
        c == '"' || c == '\\' ==> escaped(seq![c]) == seq!['\\', c],
        c == '\n' ==> escaped(seq![c]) == seq!['\\', 'n'],
        c == '\r' ==> escaped(seq![c]) == seq!['\\', 'r'],
        c == '\t' ==> escaped(seq![c]) == seq!['\\', 't'],
        c == '\u{8}' ==> escaped(seq![c]) == seq!['\\', 'b'],
        c == '\u{c}' ==> escaped(seq![c]) == seq!['\\', 'f'],
        !(c >= ' ') && c != '\n' && c != '\r' && c != '\t' && c != '\u{8}' && c != '\u{c}'
            ==> escaped(seq![c]).len() == 6 && escaped(seq![c]).take(4) == "\\u00"@,
{
    let one = seq![c];
    reveal_strlit("\\u00");
    assert(one.drop_last() =~= Seq::empty());
    assert(escaped(one.drop_last()) =~= Seq::empty());
    assert(escaped(one) =~= escaped_char(c));
    if escaped_char(c).len() == 6 {
        assert(escaped_char(c).take(4) =~= "\\u00"@);
    }
}

/// The authentication object in writing: the kind and the device stand in it in full.
pub proof fn law_auth_object_in_writing(kind: Seq<char>, device_id: Seq<char>)
    ensures
        auth_object_text("auth"@, kind, "device_id"@, Some(device_id)) == "{\"auth\":{\"type\":\""@
            + escaped(kind) + "\"},\"device_id\":\""@ + escaped(device_id) + "\"}"@,
        auth_object_text("auth"@, kind, "device_id"@, None) == "{\"auth\":{\"type\":\""@ + escaped(
            kind,
        ) + "\"},\"device_id\":null}"@,
{
    reveal_strlit("auth");
    reveal_strlit("device_id");
    reveal_strlit("\"");
    reveal_strlit("{\"type\":");
    reveal_strlit("}");
    reveal_strlit("{");
    reveal_strlit(":");
    reveal_strlit(",");
    reveal_strlit("null");
    reveal_strlit("{\"auth\":{\"type\":\"");
    reveal_strlit("\"},\"device_id\":\"");
    reveal_strlit("\"}");
    reveal_strlit("\"},\"device_id\":null}");
    law_plain_text_is_not_escaped("auth"@);
    law_plain_text_is_not_escaped("device_id"@);
    let opened = "{"@ + json_string("auth"@) + ":"@ + "{\"type\":"@ + "\""@;
    assert(opened =~= "{\"auth\":{\"type\":\""@);
    let between = "\""@ + "}"@ + ","@ + json_string("device_id"@) + ":"@;
    assert(between + "\""@ =~= "\"},\"device_id\":\""@);
    assert(between + "null"@ + "}"@ =~= "\"},\"device_id\":null}"@);
    assert("\""@ + "}"@ =~= "\"}"@);
    assert(auth_object_text("auth"@, kind, "device_id"@, Some(device_id)) =~= opened + escaped(kind)
        + (between + "\""@) + escaped(device_id) + ("\""@ + "}"@));
    assert(auth_object_text("auth"@, kind, "device_id"@, None) =~= opened + escaped(kind) + (between
        + "null"@ + "}"@));
}


} // verus!
