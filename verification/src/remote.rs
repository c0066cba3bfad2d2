//! The trust boundary: the only items whose contracts Verus believes
//! without proof. They cover exactly two outside jobs — parsing response
//! text with serde_json, and carrying one HTTP request with reqwest —
//! and state no more than those crates' own sources show.

use vstd::prelude::*;
use crate::json::Json;

verus! {

/// Declares serde_json::Value so that the parsing wrappers below can
/// hand such a value through; the library never looks inside one.
#[verifier::external_type_specification]
#[verifier::external_body]
pub struct ExValue(serde_json::Value);

/// The library's JSON tree standing for an outside parsed value.
pub uninterp spec fn spec_value_tree(v: serde_json::Value) -> Json;

/// What parsing a text yields: one JSON tree, or nothing when the text is
/// not valid JSON. Parsing depends on the characters of the text alone.
pub uninterp spec fn spec_parse_json(s: Seq<char>) -> Option<Json>;

/// Relies on serde_json::from_str: a text parses to one value determined
/// by the text alone, or fails to parse; the error carries a message.
#[verifier::external_body]
pub(crate) fn parse_value(s: &str) -> (r: Result<serde_json::Value, String>)
    ensures
        r matches Ok(v) ==> Some(spec_value_tree(v)) == spec_parse_json(s@),
        r matches Err(_) ==> spec_parse_json(s@) is None,
{
    match serde_json::from_str::<serde_json::Value>(s) {
        Ok(v) => Ok(v),
        Err(e) => Err(e.to_string()),
    }
}

/// Relies on the shape of serde_json::Value: each variant is carried over
/// into the library's own tree variant for variant, element for element
/// and entry for entry, object entries in the order the map yields them.
#[verifier::external_body]
pub(crate) fn value_to_json(v: &serde_json::Value) -> (j: Json)
    ensures
        j == spec_value_tree(*v),
{
    match v {
        serde_json::Value::Null => Json::Null,
        serde_json::Value::Bool(b) => Json::Bool(*b),
        serde_json::Value::Number(n) => Json::Num(n.to_string()),
        serde_json::Value::String(s) => Json::Str(s.clone()),
        serde_json::Value::Array(a) => Json::Arr(a.iter().map(value_to_json).collect()),
        serde_json::Value::Object(m) => Json::Obj(
            m.iter().map(|p| (p.0.clone(), value_to_json(p.1))).collect(),
        ),
    }
}

/// Relies on reqwest's blocking client: one GET request to `url` with the
/// given authorization and protocol-version header values; the response
/// body on success, the transport error's message otherwise. The outcome
/// depends on the network, so nothing is promised of it.
#[verifier::external_body]
pub(crate) fn http_get(url: &str, auth: &str, version: &str) -> Result<String, String> {
    let client = match reqwest::blocking::Client::builder().build() {
        Ok(c) => c,
        Err(e) => return Err(e.to_string()),
    };
    let sent = client.get(url).header("Authorization", auth).header(
        "Notion-Version",
        version,
    ).send();
    match sent {
        Ok(resp) => resp.text().map_err(|e| e.to_string()),
        Err(e) => Err(e.to_string()),
    }
}

/// Relies on reqwest's blocking client: one POST request carrying `body`
/// as JSON; the response body on success, the transport error's message
/// otherwise. The outcome depends on the network.
#[verifier::external_body]
pub(crate) fn http_post(url: &str, auth: &str, version: &str, body: &str) -> Result<
    String,
    String,
> {
    let client = match reqwest::blocking::Client::builder().build() {
        Ok(c) => c,
        Err(e) => return Err(e.to_string()),
    };
    let sent = client.post(url).header("Authorization", auth).header(
        "Notion-Version",
        version,
    ).header("Content-Type", "application/json").body(body.to_string()).send();
    match sent {
        Ok(resp) => resp.text().map_err(|e| e.to_string()),
        Err(e) => Err(e.to_string()),
    }
}

/// Relies on reqwest's blocking client: one PATCH request carrying `body`
/// as JSON; the response body on success, the transport error's message
/// otherwise. The outcome depends on the network.
#[verifier::external_body]
pub(crate) fn http_patch(url: &str, auth: &str, version: &str, body: &str) -> Result<
    String,
    String,
> {
    let client = match reqwest::blocking::Client::builder().build() {
        Ok(c) => c,
        Err(e) => return Err(e.to_string()),
    };
    let sent = client.patch(url).header("Authorization", auth).header(
        "Notion-Version",
        version,
    ).header("Content-Type", "application/json").body(body.to_string()).send();
    match sent {
        Ok(resp) => resp.text().map_err(|e| e.to_string()),
        Err(e) => Err(e.to_string()),
    }
}

} // verus!
